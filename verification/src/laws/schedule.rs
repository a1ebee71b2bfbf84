//! When applications are checked, and which results are kept.

use crate::config::ApplicationView;
use crate::health_check::laws::{
    after_ticks, last_readable, last_recorded, law_due_once_per_period, law_history,
    law_initial_rows, law_known_results, law_schedule, lemma_results_in_place, period, rows_after,
    ticks_in, TableEvent,
};
use crate::health_check::{
    distinct_rows, due_applications, id_is_due, initial_rows, known_results, lemma_row_index_holds,
    recorded, row_index, ticked_rows, HealthCheckResultView, IntervalState, RowView,
};
use crate::interval::readable_interval;
use vstd::prelude::*;

verus! {

/// `ticks` is the least number of seconds, one at least, that is no shorter than `base`
/// nanoseconds.
pub open spec fn covers(ticks: int, base: u128) -> bool {
    &&& ticks >= 1
    &&& ticks * 1_000_000_000 >= base
    &&& ticks == 1 || (ticks - 1) * 1_000_000_000 < base
}

/// An interval that begins with the first tick is over with every tick whose number is a
/// multiple of its length in seconds, rounded up, and with no other.
pub proof fn law_interval_ends(base: u128, length: int, tick: nat)
    requires
        covers(length, base),
        tick > 0,
    ensures
        after_ticks(IntervalState::fresh(base), (tick - 1) as nat).is_due() <==> tick as int
            % length == 0,
{
    assert(period(base) == length);
    law_due_once_per_period(base, tick);
}

/// Among the applications of `id`, the one at `i` is the last whose interval can be read.
pub open spec fn is_last_readable(apps: Seq<ApplicationView>, i: int) -> bool {
    &&& 0 <= i < apps.len()
    &&& readable_interval(apps[i].check.interval) is Some
    &&& forall|j: int|
        i < j < apps.len() && (#[trigger] apps[j]).id == apps[i].id ==> readable_interval(
            apps[j].check.interval,
        ) is None
}

/// No application of `id` has an interval that can be read.
pub open spec fn is_unreadable(apps: Seq<ApplicationView>, id: Seq<char>) -> bool {
    forall|j: int|
        0 <= j < apps.len() && (#[trigger] apps[j]).id == id ==> readable_interval(
            apps[j].check.interval,
        ) is None
}

proof fn lemma_last_readable(apps: Seq<ApplicationView>, i: int)
    requires
        is_last_readable(apps, i),
    ensures
        last_readable(apps, apps[i].id) == readable_interval(apps[i].check.interval),
    decreases apps.len(),
{
    let n = apps.len() - 1;
    if i < n {
        assert(apps[n].id == apps[i].id ==> readable_interval(apps[n].check.interval) is None);
        let rest = apps.drop_last();
        assert forall|j: int|
            i < j < rest.len() && (#[trigger] rest[j]).id == rest[i].id implies readable_interval(
            rest[j].check.interval,
        ) is None by {
            assert(apps[j] == rest[j]);
        }
        lemma_last_readable(rest, i);
    }
}

proof fn lemma_unreadable(apps: Seq<ApplicationView>, id: Seq<char>)
    requires
        is_unreadable(apps, id),
    ensures
        last_readable(apps, id) is None,
    decreases apps.len(),
{
    if apps.len() > 0 {
        let rest = apps.drop_last();
        assert(apps[apps.len() - 1].id == id ==> readable_interval(
            apps[apps.len() - 1].check.interval,
        ) is None);
        assert forall|j: int|
            0 <= j < rest.len() && (#[trigger] rest[j]).id == id implies readable_interval(
            rest[j].check.interval,
        ) is None by {
            assert(apps[j] == rest[j]);
        }
        lemma_unreadable(rest, id);
    }
}

/// Whatever happened since the start, an application is found due with every tick whose number,
/// counted from one, is a multiple of its interval in seconds, rounded up, and with no other. Of
/// several applications of one identifier, the last whose interval can be read gives the
/// interval.
pub proof fn law_due(apps: Seq<ApplicationView>, i: int, length: int, events: Seq<TableEvent>)
    requires
        is_last_readable(apps, i),
        covers(length, readable_interval(apps[i].check.interval)->0),
    ensures
        id_is_due(rows_after(initial_rows(apps), events), apps[i].id) <==> (ticks_in(events)
            + 1) as int % length == 0,
{
    let base = readable_interval(apps[i].check.interval)->0;
    lemma_last_readable(apps, i);
    law_schedule(apps, apps[i].id, events);
    assert(period(base) == length);
}

/// An application without an interval that can be read is never found due.
pub proof fn law_never_due(apps: Seq<ApplicationView>, id: Seq<char>, events: Seq<TableEvent>)
    requires
        is_unreadable(apps, id),
    ensures
        !id_is_due(rows_after(initial_rows(apps), events), id),
{
    lemma_unreadable(apps, id);
    law_schedule(apps, id, events);
}

/// Of the applications of a configuration, those that are due are checked, each as often as it
/// stands there and in that order, and no others.
pub proof fn law_due_applications(
    rows: Seq<RowView>,
    apps: Seq<ApplicationView>,
    app: ApplicationView,
)
    ensures
        due_applications(rows, seq![]).len() == 0,
        id_is_due(rows, app.id) ==> due_applications(rows, apps.push(app)) == due_applications(
            rows,
            apps,
        ).push(app),
        !id_is_due(rows, app.id) ==> due_applications(rows, apps.push(app)) == due_applications(
            rows,
            apps,
        ),
{
    reveal(Seq::filter);
    assert(apps.push(app).drop_last() =~= apps);
    assert(apps.push(app).last() == app);
}

/// A tick keeps each row in its place, with its application and its result.
pub proof fn law_tick(rows: Seq<RowView>, i: int)
    requires
        0 <= i < rows.len(),
    ensures
        ticked_rows(rows).len() == rows.len(),
        ticked_rows(rows)[i].id == rows[i].id,
        ticked_rows(rows)[i].result == rows[i].result,
        ticked_rows(rows)[i].interval.base == rows[i].interval.base,
{
}

/// A result is entered in the row of its application, in place of what was there, and changes
/// nothing else: no other result, no interval, and no row.
pub proof fn law_result_is_entered(rows: Seq<RowView>, result: HealthCheckResultView, i: int)
    requires
        distinct_rows(rows),
        0 <= i < rows.len(),
    ensures
        recorded(rows, result).len() == rows.len(),
        recorded(rows, result)[i].id == rows[i].id,
        recorded(rows, result)[i].interval == rows[i].interval,
        rows[i].id == result.id ==> recorded(rows, result)[i].result == Some(result),
        rows[i].id != result.id ==> recorded(rows, result)[i].result == rows[i].result,
{
    lemma_row_index_holds(rows, result.id);
    let p = row_index(rows, result.id);
    if p < i {
        assert(rows[p].id != rows[i].id);
    }
}

/// The results are listed in the order of the rows, one for each row that has one.
pub proof fn law_results_are_listed(rows: Seq<RowView>, row: RowView)
    ensures
        known_results(seq![]).len() == 0,
        row.result matches Some(result) ==> known_results(rows.push(row)) == known_results(
            rows,
        ).push(result),
        row.result is None ==> known_results(rows.push(row)) == known_results(rows),
{
    assert(rows.push(row).drop_last() =~= rows);
}

/// No result of `id` is recorded in `events`.
pub open spec fn none_recorded(events: Seq<TableEvent>, id: Seq<char>) -> bool {
    forall|k: int|
        0 <= k < events.len() ==> !(#[trigger] events[k] matches TableEvent::Record(result)
            && result.id == id)
}

proof fn lemma_none_recorded(earlier: Seq<TableEvent>, later: Seq<TableEvent>, id: Seq<char>)
    requires
        none_recorded(later, id),
    ensures
        last_recorded(earlier + later, id) == last_recorded(earlier, id),
    decreases later.len(),
{
    if later.len() == 0 {
        assert(earlier + later =~= earlier);
    } else {
        let fewer = later.drop_last();
        assert forall|k: int| 0 <= k < fewer.len() implies !(#[trigger] fewer[k] matches
            TableEvent::Record(result) && result.id == id) by {
            assert(fewer[k] == later[k]);
        }
        lemma_none_recorded(earlier, fewer, id);
        assert((earlier + later).drop_last() =~= earlier + fewer);
        assert((earlier + later).last() == later[later.len() - 1]);
    }
}

/// A result of an application whose interval can be read is known from when it is recorded until
/// the next of the same application, whatever happens in between.
pub proof fn law_result_is_known(
    apps: Seq<ApplicationView>,
    i: int,
    earlier: Seq<TableEvent>,
    result: HealthCheckResultView,
    later: Seq<TableEvent>,
)
    requires
        is_last_readable(apps, i),
        result.id == apps[i].id,
        none_recorded(later, result.id),
    ensures
        known_results(
            rows_after(initial_rows(apps), earlier.push(TableEvent::Record(result)) + later),
        ).contains(result),
{
    let recorded_first = earlier.push(TableEvent::Record(result));
    let events = recorded_first + later;
    let rows = initial_rows(apps);
    lemma_last_readable(apps, i);
    law_initial_rows(apps, result.id);
    law_history(rows, events);
    lemma_row_index_holds(rows, result.id);
    lemma_none_recorded(recorded_first, later, result.id);
    assert(recorded_first.last() == TableEvent::Record(result));
    assert(last_recorded(events, result.id) == Some(result));
    let p = row_index(rows, result.id);
    assert(rows_after(rows, events)[p].result == Some(result));
    law_known_results(rows_after(rows, events), result);
}

/// Nothing is known of an application before a result of it was recorded.
pub proof fn law_nothing_is_known(
    apps: Seq<ApplicationView>,
    events: Seq<TableEvent>,
    result: HealthCheckResultView,
)
    requires
        none_recorded(events, result.id),
    ensures
        !known_results(rows_after(initial_rows(apps), events)).contains(result),
{
    let rows = initial_rows(apps);
    let now = rows_after(rows, events);
    law_initial_rows(apps, result.id);
    law_history(rows, events);
    lemma_results_in_place(apps, events);
    law_known_results(now, result);
    lemma_none_recorded(seq![], events, result.id);
    assert(Seq::<TableEvent>::empty() + events =~= events);
    if known_results(now).contains(result) {
        let i = choose|i: int|
            0 <= i < now.len() && (#[trigger] now[i]).result == Some(result);
        assert(now[i].id == result.id);
        assert(rows[i].id == result.id);
    }
}

} // verus!
