//! The state of the machine: what is made of the readings of its processors, memory, disks,
//! network interfaces and sensors. `F` is the type of a measured value, which is only passed
//! on.

use crate::config::{copy_option, spelled_option};
use crate::text::{begins_with, contains, has_part};
use vstd::prelude::*;

verus! {

/// What does not change while the machine runs.
#[derive(Debug)]
pub struct StaticStat {
    pub name: Option<String>,
    pub kernel_version: Option<String>,
    pub os_version: Option<String>,
    pub host_name: Option<String>,
    pub boot_time: u64,
}

impl Clone for StaticStat {
    fn clone(&self) -> (r: Self)
        ensures
            r == *self,
    {
        StaticStat {
            name: copy_option(&self.name),
            kernel_version: copy_option(&self.kernel_version),
            os_version: copy_option(&self.os_version),
            host_name: copy_option(&self.host_name),
            boot_time: self.boot_time,
        }
    }
}

/// An amount of memory or of disk space, and how much of it is in use.
#[derive(Debug, Clone, Copy, PartialEq, Eq, Structural)]
pub struct MemStat {
    pub total: u64,
    pub used: u64,
}

/// The reading of a disk.
pub struct DiskReading {
    pub name: Option<String>,
    pub total_space: u64,
    pub available_space: u64,
}

/// The reading of a network interface: what came and went since the last one.
#[derive(Debug, Clone, Copy)]
pub struct NetworkReading {
    pub packets_received: u64,
    pub packets_transmitted: u64,
    pub received: u64,
    pub transmitted: u64,
}

/// What came and went over all network interfaces in a time.
#[derive(Debug, Clone, Copy, PartialEq, Eq, Structural)]
pub struct NetworkStat {
    pub rx_pkts: u64,
    pub tx_pkts: u64,
    pub rx_bytes: u64,
    pub tx_bytes: u64,
    pub elapsed_nanos: u128,
}

/// The temperature that a sensor measures, and that at which the part takes harm.
#[derive(Debug, Copy)]
pub struct ComponentStat<F> {
    pub temperature: Option<F>,
    pub critical: Option<F>,
}

impl<F: Copy> Clone for ComponentStat<F> {
    fn clone(&self) -> (r: Self)
        ensures
            r == *self,
    {
        *self
    }
}

/// The reading of a sensor.
pub struct ComponentReading<F> {
    pub label: String,
    pub stat: ComponentStat<F>,
}

/// The readings of a machine at one time.
pub struct Readings<F> {
    pub cpus: Vec<F>,
    pub ram: MemStat,
    pub swap: MemStat,
    pub disks: Vec<DiskReading>,
    pub networks: Vec<NetworkReading>,
    pub components: Vec<ComponentReading<F>>,
}

/// What changes while the machine runs.
#[derive(Debug)]
pub struct DynamicStat<F> {
    pub cpus: Vec<F>,
    pub ram: MemStat,
    pub swap: MemStat,
    pub disks: Vec<(Option<String>, MemStat)>,
    pub network: NetworkStat,
    pub components: Vec<(String, ComponentStat<F>)>,
}

#[verifier::reject_recursive_types(F)]
pub struct DynamicStatView<F> {
    pub cpus: Seq<F>,
    pub ram: MemStat,
    pub swap: MemStat,
    pub disks: Seq<(Option<Seq<char>>, MemStat)>,
    pub network: NetworkStat,
    pub components: Map<Seq<char>, ComponentStat<F>>,
}

/// What a list of disks says.
pub open spec fn disk_views(v: Seq<(Option<String>, MemStat)>) -> Seq<(Option<Seq<char>>, MemStat)> {
    Seq::new(v.len(), |i: int| (spelled_option(v[i].0), v[i].1))
}

/// The labels of a list of parts.
pub open spec fn labels<F>(v: Seq<(String, ComponentStat<F>)>) -> Seq<Seq<char>> {
    Seq::new(v.len(), |i: int| v[i].0@)
}

/// What a list of parts says of each label: of two of the same label, the later counts.
pub open spec fn component_map<F>(v: Seq<(String, ComponentStat<F>)>) -> Map<
    Seq<char>,
    ComponentStat<F>,
>
    decreases v.len(),
{
    if v.len() == 0 {
        Map::empty()
    } else {
        component_map(v.drop_last()).insert(v.last().0@, v.last().1)
    }
}

impl<F> View for DynamicStat<F> {
    type V = DynamicStatView<F>;

    open spec fn view(&self) -> DynamicStatView<F> {
        DynamicStatView {
            cpus: self.cpus@,
            ram: self.ram,
            swap: self.swap,
            disks: disk_views(self.disks@),
            network: self.network,
            components: component_map(self.components@),
        }
    }
}

impl<F> DynamicStat<F> {
    /// No label stands twice among the parts.
    pub open spec fn wf(&self) -> bool {
        labels(self.components@).no_duplicates()
    }
}

/// No disk has more space left than it has in all.
pub open spec fn disks_add_up(readings: Seq<DiskReading>) -> bool {
    forall|i: int|
        0 <= i < readings.len() ==> (#[trigger] readings[i]).available_space
            <= readings[i].total_space
}

/// What is made of the readings of the disks.
pub open spec fn disk_usage(readings: Seq<DiskReading>) -> Seq<(Option<Seq<char>>, MemStat)> {
    Seq::new(
        readings.len(),
        |i: int|
            (
                spelled_option(readings[i].name),
                MemStat {
                    total: readings[i].total_space,
                    used: (readings[i].total_space - readings[i].available_space) as u64,
                },
            ),
    )
}

/// How much of each disk is in use.
pub fn collect_disks(readings: &Vec<DiskReading>) -> (disks: Vec<(Option<String>, MemStat)>)
    requires
        disks_add_up(readings@),
    ensures
        disk_views(disks@) == disk_usage(readings@),
{
    let mut disks: Vec<(Option<String>, MemStat)> = Vec::new();
    for i in 0..readings.len()
        invariant
            disks_add_up(readings@),
            disks@.len() == i,
            forall|j: int| 0 <= j < i ==> #[trigger] disk_views(disks@)[j] == disk_usage(readings@)[j],
    {
        let reading = &readings[i];
        let total = reading.total_space;
        let ghost found = disk_views(disks@);
        disks.push(
            (copy_option(&reading.name), MemStat { total, used: total - reading.available_space }),
        );
        assert forall|j: int| 0 <= j < i + 1 implies #[trigger] disk_views(disks@)[j]
            == disk_usage(readings@)[j] by {
            if j < i {
                assert(disk_views(disks@)[j] == found[j]);
            }
        }
    }
    assert(disk_views(disks@) =~= disk_usage(readings@));
    disks
}

/// The sum of a counter over the network interfaces.
pub open spec fn network_total(
    readings: Seq<NetworkReading>,
    counter: spec_fn(NetworkReading) -> u64,
) -> nat
    decreases readings.len(),
{
    if readings.len() == 0 {
        0
    } else {
        network_total(readings.drop_last(), counter) + counter(readings.last()) as nat
    }
}

/// What came and went over all interfaces, as numbers without bounds.
pub open spec fn network_totals(readings: Seq<NetworkReading>) -> (nat, nat, nat, nat) {
    (
        network_total(readings, |r: NetworkReading| r.packets_received),
        network_total(readings, |r: NetworkReading| r.packets_transmitted),
        network_total(readings, |r: NetworkReading| r.received),
        network_total(readings, |r: NetworkReading| r.transmitted),
    )
}

/// The sums over the network interfaces stay in the range of their counters.
pub open spec fn network_adds_up(readings: Seq<NetworkReading>) -> bool {
    let totals = network_totals(readings);
    totals.0 <= u64::MAX && totals.1 <= u64::MAX && totals.2 <= u64::MAX && totals.3 <= u64::MAX
}

/// What is made of the readings of the network interfaces.
pub open spec fn network_usage(readings: Seq<NetworkReading>, elapsed_nanos: u128) -> NetworkStat {
    let totals = network_totals(readings);
    NetworkStat {
        rx_pkts: totals.0 as u64,
        tx_pkts: totals.1 as u64,
        rx_bytes: totals.2 as u64,
        tx_bytes: totals.3 as u64,
        elapsed_nanos,
    }
}

/// A sum grows with what is added.
proof fn lemma_network_total_grows(
    readings: Seq<NetworkReading>,
    counter: spec_fn(NetworkReading) -> u64,
    n: int,
)
    requires
        0 <= n <= readings.len(),
    ensures
        network_total(readings.take(n), counter) <= network_total(readings, counter),
    decreases readings.len(),
{
    if n < readings.len() {
        lemma_network_total_grows(readings.drop_last(), counter, n);
        assert(readings.drop_last().take(n) =~= readings.take(n));
    } else {
        assert(readings.take(n) =~= readings);
    }
}

/// What came and went over all interfaces; `None` where a sum leaves its range.
fn add_up_network(readings: &Vec<NetworkReading>) -> (totals: Option<(u64, u64, u64, u64)>)
    ensures
        totals is Some == network_adds_up(readings@),
        totals matches Some(t) ==> network_totals(readings@) == (
            t.0 as nat,
            t.1 as nat,
            t.2 as nat,
            t.3 as nat,
        ),
{
    let mut rx_pkts: u64 = 0;
    let mut tx_pkts: u64 = 0;
    let mut rx_bytes: u64 = 0;
    let mut tx_bytes: u64 = 0;
    assert(readings@.take(0) =~= seq![]);
    for i in 0..readings.len()
        invariant
            network_totals(readings@.take(i as int)) == (
                rx_pkts as nat,
                tx_pkts as nat,
                rx_bytes as nat,
                tx_bytes as nat,
            ),
    {
        let reading = readings[i];
        proof {
            let all = readings@;
            assert(all.take(i + 1).drop_last() =~= all.take(i as int));
            assert(all.take(i + 1).last() == reading);
            lemma_network_total_grows(all, |r: NetworkReading| r.packets_received, i + 1);
            lemma_network_total_grows(all, |r: NetworkReading| r.packets_transmitted, i + 1);
            lemma_network_total_grows(all, |r: NetworkReading| r.received, i + 1);
            lemma_network_total_grows(all, |r: NetworkReading| r.transmitted, i + 1);
        }
        match (
            rx_pkts.checked_add(reading.packets_received),
            tx_pkts.checked_add(reading.packets_transmitted),
            rx_bytes.checked_add(reading.received),
            tx_bytes.checked_add(reading.transmitted),
        ) {
            (Some(a), Some(b), Some(c), Some(d)) => {
                rx_pkts = a;
                tx_pkts = b;
                rx_bytes = c;
                tx_bytes = d;
            },
            _ => {
                return None;
            },
        }
    }
    assert(readings@.take(readings@.len() as int) =~= readings@);
    Some((rx_pkts, tx_pkts, rx_bytes, tx_bytes))
}

/// What came and went over all network interfaces.
pub fn collect_network(readings: &Vec<NetworkReading>, elapsed_nanos: u128) -> (network: NetworkStat)
    requires
        network_adds_up(readings@),
    ensures
        network == network_usage(readings@, elapsed_nanos),
{
    let (rx_pkts, tx_pkts, rx_bytes, tx_bytes) = add_up_network(readings).unwrap();
    NetworkStat { rx_pkts, tx_pkts, rx_bytes, tx_bytes, elapsed_nanos }
}

/// A sensor whose temperature is kept: that of a core or of a whole package.
pub open spec fn is_kept(label: Seq<char>) -> bool {
    "Core"@.is_prefix_of(label) || has_part(label, "Package"@)
}

/// What is made of the readings of the sensors: of two kept under the same label, the later
/// counts.
pub open spec fn kept_components<F>(readings: Seq<ComponentReading<F>>) -> Map<
    Seq<char>,
    ComponentStat<F>,
>
    decreases readings.len(),
{
    if readings.len() == 0 {
        Map::empty()
    } else if is_kept(readings.last().label@) {
        kept_components(readings.drop_last()).insert(readings.last().label@, readings.last().stat)
    } else {
        kept_components(readings.drop_last())
    }
}

/// Replacing what a list says of one of its labels replaces it in the map.
proof fn lemma_component_update<F>(
    v: Seq<(String, ComponentStat<F>)>,
    p: int,
    stat: ComponentStat<F>,
)
    requires
        labels(v).no_duplicates(),
        0 <= p < v.len(),
    ensures
        component_map(v.update(p, (v[p].0, stat))) == component_map(v).insert(v[p].0@, stat),
    decreases v.len(),
{
    let changed = v.update(p, (v[p].0, stat));
    let rest = v.drop_last();
    assert(labels(rest) =~= labels(v).drop_last());
    if p == v.len() - 1 {
        assert(changed.drop_last() =~= rest);
        assert(component_map(changed) =~= component_map(v).insert(v[p].0@, stat));
    } else {
        assert(changed.drop_last() =~= rest.update(p, (rest[p].0, stat)));
        lemma_component_update(rest, p, stat);
        assert(labels(v)[p] != labels(v)[v.len() - 1]);
        assert(component_map(changed) =~= component_map(v).insert(v[p].0@, stat));
    }
}

/// Where a label stands in a list of parts; the length of the list where it does not.
fn find_label<F>(components: &Vec<(String, ComponentStat<F>)>, label: &String) -> (p: usize)
    ensures
        p <= components@.len(),
        p < components@.len() ==> components@[p as int].0@ == label@,
        forall|i: int| 0 <= i < p ==> (#[trigger] components@[i]).0@ != label@,
{
    let mut p: usize = 0;
    while p < components.len() && components[p].0 != *label
        invariant
            p <= components@.len(),
            forall|i: int| 0 <= i < p ==> (#[trigger] components@[i]).0@ != label@,
        decreases components@.len() - p,
    {
        p += 1;
    }
    p
}

/// The temperatures of the cores and packages, by label.
pub fn collect_components<F: Copy>(readings: &Vec<ComponentReading<F>>) -> (components: Vec<
    (String, ComponentStat<F>),
>)
    ensures
        labels(components@).no_duplicates(),
        component_map(components@) == kept_components(readings@),
{
    let mut components: Vec<(String, ComponentStat<F>)> = Vec::new();
    assert(readings@.take(0) =~= seq![]);
    for i in 0..readings.len()
        invariant
            labels(components@).no_duplicates(),
            component_map(components@) == kept_components(readings@.take(i as int)),
    {
        let reading = &readings[i];
        assert(readings@.take(i + 1).drop_last() =~= readings@.take(i as int));
        assert(readings@.take(i + 1).last() == *reading);
        let label = reading.label.as_str();
        if begins_with(label, "Core") || contains(label, "Package") {
            let p = find_label(&components, &reading.label);
            let ghost before = components@;
            if p < components.len() {
                proof {
                    lemma_component_update(before, p as int, reading.stat);
                }
                let kept = components[p].0.clone();
                components.set(p, (kept, reading.stat));
                assert(labels(components@) =~= labels(before));
            } else {
                components.push((reading.label.clone(), reading.stat));
                assert(components@.drop_last() =~= before);
                assert(labels(components@) =~= labels(before).push(reading.label@));
                assert forall|j: int| 0 <= j < labels(before).len() implies labels(before)[j]
                    != reading.label@ by {
                    assert(labels(before)[j] == before[j].0@);
                }
            }
        }
    }
    assert(readings@.take(readings@.len() as int) =~= readings@);
    components
}

impl<F> Readings<F> {
    /// The readings of the disks and of the network interfaces add up.
    pub open spec fn add_up(self) -> bool {
        disks_add_up(self.disks@) && network_adds_up(self.networks@)
    }

    /// What is made of the readings.
    pub open spec fn collected(self, elapsed_nanos: u128) -> DynamicStatView<F> {
        DynamicStatView {
            cpus: self.cpus@,
            ram: self.ram,
            swap: self.swap,
            disks: disk_usage(self.disks@),
            network: network_usage(self.networks@, elapsed_nanos),
            components: kept_components(self.components@),
        }
    }

    /// Tells whether the readings add up.
    pub fn adds_up(&self) -> (b: bool)
        ensures
            b == self.add_up(),
    {
        for i in 0..self.disks.len()
            invariant
                forall|j: int|
                    0 <= j < i ==> (#[trigger] self.disks@[j]).available_space
                        <= self.disks@[j].total_space,
        {
            if self.disks[i].available_space > self.disks[i].total_space {
                return false;
            }
        }
        add_up_network(&self.networks).is_some()
    }
}

/// The state of the machine after `elapsed_nanos` since the readings before.
pub fn collect_dynamic<F: Copy>(readings: Readings<F>, elapsed_nanos: u128) -> (stat: DynamicStat<
    F,
>)
    requires
        readings.add_up(),
    ensures
        stat.wf(),
        stat@ == readings.collected(elapsed_nanos),
{
    let disks = collect_disks(&readings.disks);
    let network = collect_network(&readings.networks, elapsed_nanos);
    let components = collect_components(&readings.components);
    DynamicStat {
        cpus: readings.cpus,
        ram: readings.ram,
        swap: readings.swap,
        disks,
        network,
        components,
    }
}

impl<F: Copy> Clone for DynamicStat<F> {
    fn clone(&self) -> (r: Self)
        ensures
            r@ == self@,
            self.wf() ==> r.wf(),
    {
        let mut cpus: Vec<F> = Vec::new();
        for i in 0..self.cpus.len()
            invariant
                cpus@ == self.cpus@.take(i as int),
        {
            cpus.push(self.cpus[i]);
        }
        let mut disks: Vec<(Option<String>, MemStat)> = Vec::new();
        for i in 0..self.disks.len()
            invariant
                disks@ == self.disks@.take(i as int),
        {
            disks.push((copy_option(&self.disks[i].0), self.disks[i].1));
        }
        let mut components: Vec<(String, ComponentStat<F>)> = Vec::new();
        for i in 0..self.components.len()
            invariant
                components@ == self.components@.take(i as int),
        {
            components.push((self.components[i].0.clone(), self.components[i].1));
        }
        assert(cpus@ =~= self.cpus@);
        assert(disks@ =~= self.disks@);
        assert(components@ =~= self.components@);
        DynamicStat {
            cpus,
            ram: self.ram,
            swap: self.swap,
            disks,
            network: self.network,
            components,
        }
    }
}

/// The state of the machine: what does not change, and what does.
#[derive(Debug)]
pub struct SystemStatusResult<F>(pub StaticStat, pub DynamicStat<F>);

/// The time that the first readings are taken to cover, in nanoseconds.
pub const FIRST_ELAPSED_NANOS: u128 = 1_000_000_000;

/// What is known of the machine.
pub struct SystemStatusManager<F> {
    static_stat: StaticStat,
    dynamic_stat: DynamicStat<F>,
}

impl<F> SystemStatusManager<F> {
    pub closed spec fn fixed(&self) -> StaticStat {
        self.static_stat
    }

    pub closed spec fn latest(&self) -> DynamicStatView<F> {
        self.dynamic_stat@
    }

    /// No label stands twice among the parts.
    pub closed spec fn wf(&self) -> bool {
        self.dynamic_stat.wf()
    }
}

/// What is known of the changing state after new readings: what is made of them, or, where they
/// do not add up, what was known before.
pub open spec fn known_after<F>(
    before: DynamicStatView<F>,
    readings: Readings<F>,
    elapsed_nanos: u128,
) -> DynamicStatView<F> {
    if readings.add_up() {
        readings.collected(elapsed_nanos)
    } else {
        before
    }
}

impl<F: Copy> SystemStatusManager<F> {
    /// What is known with the first readings.
    pub fn new(static_stat: StaticStat, readings: Readings<F>) -> (manager: Self)
        requires
            readings.add_up(),
        ensures
            manager.wf(),
            manager.fixed() == static_stat,
            manager.latest() == readings.collected(FIRST_ELAPSED_NANOS),
    {
        SystemStatusManager {
            static_stat,
            dynamic_stat: collect_dynamic(readings, FIRST_ELAPSED_NANOS),
        }
    }

    /// Takes up new readings. Readings that do not add up are dropped, and what was known
    /// stays. Tells whether they were taken up.
    pub fn update(&mut self, readings: Readings<F>, elapsed_nanos: u128) -> (taken: bool)
        requires
            old(self).wf(),
        ensures
            final(self).wf(),
            final(self).fixed() == old(self).fixed(),
            taken == readings.add_up(),
            final(self).latest() == (if taken {
                readings.collected(elapsed_nanos)
            } else {
                old(self).latest()
            }),
            final(self).latest() == known_after(old(self).latest(), readings, elapsed_nanos),
    {
        if readings.adds_up() {
            self.dynamic_stat = collect_dynamic(readings, elapsed_nanos);
            true
        } else {
            false
        }
    }

    /// What is known of the machine.
    pub fn get_system_status(&self) -> (status: SystemStatusResult<F>)
        requires
            self.wf(),
        ensures
            status.0 == self.fixed(),
            status.1@ == self.latest(),
            status.1.wf(),
    {
        SystemStatusResult(self.static_stat.clone(), self.dynamic_stat.clone())
    }
}

/// A label has a temperature exactly if a sensor of that label is kept, and it is that of the
/// last such sensor.
pub proof fn law_last_reading_counts<F>(readings: Seq<ComponentReading<F>>, label: Seq<char>)
    ensures
        kept_components(readings).contains_key(label) == (is_kept(label) && exists|i: int|
            0 <= i < readings.len() && (#[trigger] readings[i]).label@ == label),
        kept_components(readings).contains_key(label) ==> exists|i: int|
            0 <= i < readings.len() && (#[trigger] readings[i]).label@ == label
                && kept_components(readings)[label] == readings[i].stat && forall|j: int|
                i < j < readings.len() ==> (#[trigger] readings[j]).label@ != label,
    decreases readings.len(),
{
    if readings.len() > 0 {
        let rest = readings.drop_last();
        let n = rest.len() as int;
        law_last_reading_counts(rest, label);
        if readings[n].label@ == label {
            assert(readings[n].label@ == label);
        } else {
            if kept_components(rest).contains_key(label) {
                let i = choose|i: int|
                    0 <= i < rest.len() && (#[trigger] rest[i]).label@ == label
                        && kept_components(rest)[label] == rest[i].stat && forall|j: int|
                        i < j < rest.len() ==> (#[trigger] rest[j]).label@ != label;
                assert(readings[i].label@ == label);
                assert forall|j: int| i < j < readings.len() implies (
                #[trigger] readings[j]).label@ != label by {
                    if j < n {
                        assert(readings[j] == rest[j]);
                    }
                }
            }
            if exists|i: int| 0 <= i < readings.len() && (#[trigger] readings[i]).label@ == label {
                let i = choose|i: int|
                    0 <= i < readings.len() && (#[trigger] readings[i]).label@ == label;
                assert(rest[i].label@ == label);
            }
        }
    }
}

} // verus!
