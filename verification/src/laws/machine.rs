//! What is made of the readings of the machine.

use crate::laws::checks::reads;
use crate::system_status::{
    component_map, disk_usage, disk_views, disks_add_up, is_kept, kept_components, known_after,
    labels, law_last_reading_counts, network_adds_up, network_usage,
    ComponentReading, ComponentStat, DiskReading, DynamicStat, DynamicStatView, MemStat,
    NetworkReading, Readings, FIRST_ELAPSED_NANOS,
};
use crate::text::has_part;
use vstd::prelude::*;

verus! {

/// A list of parts in which no label stands twice has one entry for each label of its map.
proof fn lemma_component_map<F>(v: Seq<(String, ComponentStat<F>)>, label: Seq<char>)
    requires
        labels(v).no_duplicates(),
    ensures
        component_map(v).contains_key(label) <==> exists|j: int|
            0 <= j < v.len() && (#[trigger] v[j]).0@ == label,
        forall|j: int|
            0 <= j < v.len() && (#[trigger] v[j]).0@ == label ==> component_map(v)[label] == v[j].1,
    decreases v.len(),
{
    if v.len() > 0 {
        let rest = v.drop_last();
        let n = rest.len() as int;
        assert(labels(rest) =~= labels(v).drop_last());
        lemma_component_map(rest, label);
        assert forall|j: int| 0 <= j < v.len() && (#[trigger] v[j]).0@ == label implies component_map(
            v,
        )[label] == v[j].1 by {
            if j < n {
                assert(rest[j] == v[j]);
                assert(labels(v)[j] == v[j].0@ && labels(v)[n] == v[n].0@);
            }
        }
        if component_map(v).contains_key(label) {
            if v[n].0@ != label {
                let j = choose|j: int| 0 <= j < rest.len() && (#[trigger] rest[j]).0@ == label;
                assert(v[j].0@ == label);
            }
        }
        if exists|j: int| 0 <= j < v.len() && (#[trigger] v[j]).0@ == label {
            let j = choose|j: int| 0 <= j < v.len() && (#[trigger] v[j]).0@ == label;
            if j < n {
                assert(rest[j].0@ == label);
            }
        }
    }
}

/// One entry of a list bears `label`, and its temperatures are those of the last sensor of that
/// label.
pub open spec fn is_listed<F>(
    components: Seq<(String, ComponentStat<F>)>,
    readings: Seq<ComponentReading<F>>,
    label: Seq<char>,
) -> bool {
    exists|j: int|
        0 <= j < components.len() && (#[trigger] components[j]).0@ == label && (forall|k: int|
            0 <= k < components.len() && (#[trigger] components[k]).0@ == label ==> k == j) && (
        exists|i: int|
            0 <= i < readings.len() && (#[trigger] readings[i]).label@ == label && components[j].1
                == readings[i].stat && forall|k: int|
                i < k < readings.len() ==> (#[trigger] readings[k]).label@ != label)
}

proof fn lemma_listed<F>(
    components: Seq<(String, ComponentStat<F>)>,
    readings: Seq<ComponentReading<F>>,
    i: int,
)
    requires
        labels(components).no_duplicates(),
        component_map(components) == kept_components(readings),
        0 <= i < readings.len(),
        is_kept(readings[i].label@),
    ensures
        is_listed(components, readings, readings[i].label@),
{
    let label = readings[i].label@;
    law_last_reading_counts(readings, label);
    lemma_component_map(components, label);
    let j = choose|j: int| 0 <= j < components.len() && (#[trigger] components[j]).0@ == label;
    assert forall|k: int|
        0 <= k < components.len() && (#[trigger] components[k]).0@ == label implies k == j by {
        assert(labels(components)[k] == components[k].0@);
        assert(labels(components)[j] == components[j].0@);
    }
}

/// Every sensor whose label begins with `Core`, whatever follows, is listed, once and with the
/// temperatures of the last sensor of that label.
pub proof fn law_cores_are_kept<F>(
    components: Seq<(String, ComponentStat<F>)>,
    readings: Seq<ComponentReading<F>>,
    i: int,
    t: Seq<char>,
)
    requires
        labels(components).no_duplicates(),
        component_map(components) == kept_components(readings),
        0 <= i < readings.len(),
        readings[i].label@ == "Core"@ + t,
    ensures
        is_listed(components, readings, "Core"@ + t),
{
    reveal_strlit("Core");
    let label = "Core"@ + t;
    assert("Core"@ =~= label.subrange(0, 4));
    lemma_listed(components, readings, i);
}

/// Every sensor whose label has `Package` in it, whatever stands around that, is listed, once
/// and with the temperatures of the last sensor of that label.
pub proof fn law_packages_are_kept<F>(
    components: Seq<(String, ComponentStat<F>)>,
    readings: Seq<ComponentReading<F>>,
    i: int,
    a: Seq<char>,
    b: Seq<char>,
)
    requires
        labels(components).no_duplicates(),
        component_map(components) == kept_components(readings),
        0 <= i < readings.len(),
        readings[i].label@ == a + "Package"@ + b,
    ensures
        is_listed(components, readings, a + "Package"@ + b),
{
    let label = a + "Package"@ + b;
    let n = a.len() as int;
    assert("Package"@ =~= label.skip(n).subrange(0, "Package"@.len() as int));
    assert("Package"@.is_prefix_of(label.skip(n)));
    lemma_listed(components, readings, i);
}

/// Nothing else is listed: the label of an entry is that of a sensor, and it begins with `Core`
/// or has `Package` in it.
pub proof fn law_others_are_dropped<F>(
    components: Seq<(String, ComponentStat<F>)>,
    readings: Seq<ComponentReading<F>>,
    j: int,
)
    requires
        labels(components).no_duplicates(),
        component_map(components) == kept_components(readings),
        0 <= j < components.len(),
    ensures
        exists|i: int| 0 <= i < readings.len() && (#[trigger] readings[i]).label@
            == components[j].0@,
        (exists|t: Seq<char>| components[j].0@ == #[trigger] ("Core"@ + t)) || (exists|
            a: Seq<char>,
            b: Seq<char>,
        | components[j].0@ == #[trigger] (a + "Package"@ + b)),
{
    reveal_strlit("Core");
    let label = components[j].0@;
    lemma_component_map(components, label);
    law_last_reading_counts(readings, label);
    if "Core"@.is_prefix_of(label) {
        assert(label =~= "Core"@ + label.skip(4)) by {
            assert(label.subrange(0, 4) == "Core"@);
            assert(label =~= label.subrange(0, 4) + label.skip(4));
        }
    } else {
        assert(has_part(label, "Package"@));
        let i = choose|i: int|
            0 <= i <= label.len() && #[trigger] "Package"@.is_prefix_of(label.skip(i));
        let m = "Package"@.len() as int;
        let a = label.take(i);
        let b = label.skip(i).skip(m);
        assert(label.skip(i) =~= label.skip(i).subrange(0, m) + b);
        assert(label =~= a + label.skip(i));
        assert(label =~= a + "Package"@ + b);
    }
}

/// Each disk keeps its place and its name, and what is in use and what is available make up all
/// of it.
pub proof fn law_disks(
    readings: Seq<DiskReading>,
    disks: Seq<(Option<String>, MemStat)>,
    i: int,
)
    requires
        disks_add_up(readings),
        disk_views(disks) == disk_usage(readings),
        0 <= i < readings.len(),
    ensures
        disks.len() == readings.len(),
        disks[i].1.total == readings[i].total_space,
        disks[i].1.used + readings[i].available_space == readings[i].total_space,
        disks[i].0 is Some <==> readings[i].name is Some,
        readings[i].name matches Some(name) ==> reads(disks[i].0, name@),
{
    assert(disk_views(disks).len() == disks.len());
    assert(disk_usage(readings).len() == readings.len());
    assert(disk_views(disks)[i] == disk_usage(readings)[i]);
}

/// Each interface adds what it received and sent to the totals, packets to packets and bytes to
/// bytes, and no other counter. Without an interface they are zero. The time is passed on.
pub proof fn law_network(readings: Seq<NetworkReading>, more: NetworkReading, elapsed: u128)
    requires
        network_adds_up(readings.push(more)),
    ensures
        network_adds_up(readings),
        network_usage(seq![], elapsed).rx_pkts == 0,
        network_usage(seq![], elapsed).tx_pkts == 0,
        network_usage(seq![], elapsed).rx_bytes == 0,
        network_usage(seq![], elapsed).tx_bytes == 0,
        network_usage(readings, elapsed).elapsed_nanos == elapsed,
        network_usage(readings.push(more), elapsed).rx_pkts == network_usage(
            readings,
            elapsed,
        ).rx_pkts + more.packets_received,
        network_usage(readings.push(more), elapsed).tx_pkts == network_usage(
            readings,
            elapsed,
        ).tx_pkts + more.packets_transmitted,
        network_usage(readings.push(more), elapsed).rx_bytes == network_usage(
            readings,
            elapsed,
        ).rx_bytes + more.received,
        network_usage(readings.push(more), elapsed).tx_bytes == network_usage(
            readings,
            elapsed,
        ).tx_bytes + more.transmitted,
{
    assert(readings.push(more).drop_last() =~= readings);
}

/// Readings of interfaces that add up still do so with one more exactly if each of the four
/// totals stays within 64 bits.
pub proof fn law_network_range(readings: Seq<NetworkReading>, more: NetworkReading)
    requires
        network_adds_up(readings),
    ensures
        network_adds_up(seq![]),
        network_adds_up(readings.push(more)) <==> {
            let known = network_usage(readings, 0);
            &&& known.rx_pkts + more.packets_received <= 0xffff_ffff_ffff_ffff
            &&& known.tx_pkts + more.packets_transmitted <= 0xffff_ffff_ffff_ffff
            &&& known.rx_bytes + more.received <= 0xffff_ffff_ffff_ffff
            &&& known.tx_bytes + more.transmitted <= 0xffff_ffff_ffff_ffff
        },
{
    assert(readings.push(more).drop_last() =~= readings);
}

/// What is made of readings has all of them: the processors, the memory and the swap space as
/// they were read, and what is made of the disks, the interfaces and the sensors.
pub proof fn law_collected<F>(readings: Readings<F>, elapsed: u128, stat: DynamicStat<F>)
    requires
        stat@ == readings.collected(elapsed),
    ensures
        stat.cpus@ == readings.cpus@,
        stat.ram.total == readings.ram.total && stat.ram.used == readings.ram.used,
        stat.swap.total == readings.swap.total && stat.swap.used == readings.swap.used,
        disk_views(stat.disks@) == disk_usage(readings.disks@),
        stat.network == network_usage(readings.networks@, elapsed),
        component_map(stat.components@) == kept_components(readings.components@),
{
}

/// Readings add up exactly if no disk has more space left than it has in all and the totals of
/// the interfaces stay in their range. Those that do take the place of all that was known, and
/// those that do not change nothing.
pub proof fn law_update<F>(
    before: DynamicStatView<F>,
    other: DynamicStatView<F>,
    readings: Readings<F>,
    elapsed: u128,
)
    ensures
        readings.add_up() <==> network_adds_up(readings.networks@) && forall|i: int|
            0 <= i < readings.disks@.len() ==> (#[trigger] readings.disks@[i]).available_space
                <= readings.disks@[i].total_space,
        readings.add_up() ==> known_after(before, readings, elapsed) == known_after(
            other,
            readings,
            elapsed,
        ) && known_after(before, readings, elapsed) == readings.collected(elapsed),
        !readings.add_up() ==> known_after(before, readings, elapsed) == before,
        FIRST_ELAPSED_NANOS == 1_000_000_000,
{
}

} // verus!
