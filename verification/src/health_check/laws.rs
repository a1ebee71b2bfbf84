//! What holds of the schedule and of the status table as a whole.

use crate::config::ApplicationView;
use crate::health_check::{
    distinct_rows, id_is_due, initial_rows, known_results, lemma_row_index, lemma_row_index_holds,
    recorded, registered, row_index, ticked_rows, HealthCheckResultView, IntervalState, RowView,
    TICK_NANOS,
};
use crate::interval::readable_interval;
use vstd::prelude::*;

verus! {

/// An interval after a number of ticks.
pub open spec fn after_ticks(interval: IntervalState, ticks: nat) -> IntervalState
    decreases ticks,
{
    if ticks == 0 {
        interval
    } else {
        after_ticks(interval, (ticks - 1) as nat).ticked()
    }
}

/// How many ticks lie between two checks: as many as the interval has begun seconds, and one
/// for an interval of zero.
pub open spec fn period(base: u128) -> int {
    if base == 0 {
        1
    } else {
        (base + TICK_NANOS - 1) / (TICK_NANOS as int)
    }
}

proof fn lemma_mod_step(n: int, p: int)
    by (nonlinear_arith)
    requires
        n >= 0,
        p > 0,
    ensures
        (n + 1) % p == (if n % p == p - 1 {
            0
        } else {
            n % p + 1
        }),
        0 <= n % p < p,
{
}

/// A check is due with the tick numbered `ticks`, counted from one, exactly if its period
/// divides `ticks`.
pub proof fn law_due_once_per_period(base: u128, ticks: nat)
    requires
        ticks > 0,
    ensures
        after_ticks(IntervalState::fresh(base), (ticks - 1) as nat).is_due() == (ticks as int
            % period(base) == 0),
{
    lemma_time_left(base, (ticks - 1) as nat);
    lemma_mod_step(ticks - 1, period(base));
}

proof fn lemma_time_left(base: u128, ticks: nat)
    ensures
        period(base) > 0,
        after_ticks(IntervalState::fresh(base), ticks).base == base,
        after_ticks(IntervalState::fresh(base), ticks).current == base - (ticks as int % period(
            base,
        )) * TICK_NANOS,
        after_ticks(IntervalState::fresh(base), ticks).is_due() == (ticks as int % period(base)
            == period(base) - 1),
    decreases ticks,
{
    let p = period(base);
    assert(p > 0);
    if ticks > 0 {
        lemma_time_left(base, (ticks - 1) as nat);
        lemma_mod_step(ticks - 1, p);
    } else {
        assert(0int % p == 0) by (nonlinear_arith)
            requires
                p > 0,
        ;
    }
    lemma_mod_step(ticks as int, p);
    let r = ticks as int % p;
    assert(r < p - 1 ==> base > (r + 1) * TICK_NANOS);
    assert(r == p - 1 ==> base <= (r + 1) * TICK_NANOS);
}

/// The interval of the last application `id` whose interval can be read.
pub open spec fn last_readable(apps: Seq<ApplicationView>, id: Seq<char>) -> Option<u128>
    decreases apps.len(),
{
    if apps.len() == 0 {
        None
    } else if apps.last().id == id && readable_interval(apps.last().check.interval) is Some {
        readable_interval(apps.last().check.interval)
    } else {
        last_readable(apps.drop_last(), id)
    }
}

/// A worker starts with one row for each identifier under which an application has an interval
/// that can be read, the last of them where there are several, with the whole interval before
/// it and no result.
pub proof fn law_initial_rows(apps: Seq<ApplicationView>, id: Seq<char>)
    ensures
        distinct_rows(initial_rows(apps)),
        match last_readable(apps, id) {
            Some(base) => row_index(initial_rows(apps), id) < initial_rows(apps).len()
                && initial_rows(apps)[row_index(initial_rows(apps), id)] == RowView::fresh(id, base),
            None => row_index(initial_rows(apps), id) == initial_rows(apps).len(),
        },
    decreases apps.len(),
{
    if apps.len() > 0 {
        let rows = initial_rows(apps.drop_last());
        let entered = apps.last().id;
        let interval = readable_interval(apps.last().check.interval);
        law_initial_rows(apps.drop_last(), id);
        law_initial_rows(apps.drop_last(), entered);
        lemma_row_index_holds(rows, id);
        lemma_row_index_holds(rows, entered);
        let after = registered(rows, entered, interval);
        if interval is Some {
            let p = row_index(rows, entered);
            let q = row_index(rows, id);
            assert(forall|i: int| 0 <= i < rows.len() ==> (#[trigger] after[i]).id == rows[i].id);
            if id == entered {
                lemma_row_index(after, id, p);
            } else if q < rows.len() {
                lemma_row_index(after, id, q);
            } else {
                lemma_row_index(after, id, after.len() as int);
            }
        }
    }
}

/// What the table says of an application: the result of its last check.
pub open spec fn known(rows: Seq<RowView>, id: Seq<char>) -> Option<HealthCheckResultView> {
    if row_index(rows, id) < rows.len() {
        rows[row_index(rows, id)].result
    } else {
        None
    }
}

/// Both tables have rows of the same applications, in the same order.
pub open spec fn same_ids(a: Seq<RowView>, b: Seq<RowView>) -> bool {
    a.len() == b.len() && forall|i: int|
        #![trigger a[i]]
        #![trigger b[i]]
        0 <= i < a.len() ==> a[i].id == b[i].id
}

proof fn lemma_same_ids(a: Seq<RowView>, b: Seq<RowView>, id: Seq<char>)
    requires
        same_ids(a, b),
    ensures
        row_index(a, id) == row_index(b, id),
{
    lemma_row_index_holds(a, id);
    lemma_row_index(b, id, row_index(a, id));
}

/// A tick changes neither which applications have rows nor what is known of them.
pub proof fn law_tick_keeps_results(rows: Seq<RowView>, id: Seq<char>)
    ensures
        same_ids(rows, ticked_rows(rows)),
        known(ticked_rows(rows), id) == known(rows, id),
{
    lemma_same_ids(rows, ticked_rows(rows), id);
    lemma_row_index_holds(rows, id);
}

/// A result that is recorded is what is known of its application from then on, if that has a
/// row. What is known of the others, which applications have rows, and when each is due,
/// stays the same.
pub proof fn law_record(rows: Seq<RowView>, result: HealthCheckResultView, id: Seq<char>)
    ensures
        same_ids(rows, recorded(rows, result)),
        forall|i: int|
            0 <= i < rows.len() ==> (#[trigger] recorded(rows, result)[i]).interval
                == rows[i].interval,
        known(recorded(rows, result), id) == (if id == result.id && row_index(rows, id)
            < rows.len() {
            Some(result)
        } else {
            known(rows, id)
        }),
{
    lemma_row_index_holds(rows, result.id);
    lemma_row_index_holds(rows, id);
    lemma_same_ids(rows, recorded(rows, result), id);
}

/// What happens to the table.
pub enum TableEvent {
    Tick,
    Record(HealthCheckResultView),
}

/// The table after a history of events.
pub open spec fn rows_after(rows: Seq<RowView>, events: Seq<TableEvent>) -> Seq<RowView>
    decreases events.len(),
{
    if events.len() == 0 {
        rows
    } else {
        match events.last() {
            TableEvent::Tick => ticked_rows(rows_after(rows, events.drop_last())),
            TableEvent::Record(result) => recorded(rows_after(rows, events.drop_last()), result),
        }
    }
}

/// How many ticks there are in a history.
pub open spec fn ticks_in(events: Seq<TableEvent>) -> nat
    decreases events.len(),
{
    if events.len() == 0 {
        0
    } else {
        ticks_in(events.drop_last()) + (if events.last() is Tick {
            1nat
        } else {
            0nat
        })
    }
}

/// The last result of `id` in a history.
pub open spec fn last_recorded(events: Seq<TableEvent>, id: Seq<char>) -> Option<
    HealthCheckResultView,
>
    decreases events.len(),
{
    if events.len() == 0 {
        None
    } else {
        match events.last() {
            TableEvent::Record(result) => if result.id == id {
                Some(result)
            } else {
                last_recorded(events.drop_last(), id)
            },
            TableEvent::Tick => last_recorded(events.drop_last(), id),
        }
    }
}

/// Whatever happens to the table, it keeps its rows. The interval of each depends on the
/// number of ticks alone, and its result is the last one recorded of its application.
pub proof fn law_history(rows: Seq<RowView>, events: Seq<TableEvent>)
    requires
        distinct_rows(rows),
    ensures
        distinct_rows(rows_after(rows, events)),
        rows_after(rows, events).len() == rows.len(),
        forall|i: int|
            0 <= i < rows.len() ==> #[trigger] rows_after(rows, events)[i] == (RowView {
                id: rows[i].id,
                interval: after_ticks(rows[i].interval, ticks_in(events)),
                result: match last_recorded(events, rows[i].id) {
                    Some(result) => Some(result),
                    None => rows[i].result,
                },
            }),
    decreases events.len(),
{
    if events.len() > 0 {
        let earlier = rows_after(rows, events.drop_last());
        law_history(rows, events.drop_last());
        if let TableEvent::Record(result) = events.last() {
            lemma_row_index_holds(earlier, result.id);
            let p = row_index(earlier, result.id);
            assert forall|i: int| 0 <= i < rows.len() && i != p implies (
            #[trigger] earlier[i]).id != result.id by {
                if earlier[i].id == result.id {
                    assert(i >= p);
                    assert(earlier[p].id == earlier[i].id);
                }
            }
        }
    }
}

/// Whatever happened since the start, the next tick finds an application due exactly if its
/// interval can be read and its period divides the number of that tick. An application whose
/// interval cannot be read, or that was not there at the start, is never found due.
pub proof fn law_schedule(apps: Seq<ApplicationView>, id: Seq<char>, events: Seq<TableEvent>)
    ensures
        id_is_due(rows_after(initial_rows(apps), events), id) == (last_readable(
            apps,
            id,
        ) matches Some(base) && (ticks_in(events) + 1) as int % period(base) == 0),
{
    let rows = initial_rows(apps);
    let before = ticks_in(events);
    let later = rows_after(rows, events);
    law_initial_rows(apps, id);
    law_history(rows, events);
    lemma_row_index_holds(rows, id);
    let p = row_index(rows, id);
    match last_readable(apps, id) {
        Some(base) => {
            law_due_once_per_period(base, before + 1);
            assert(later[p].interval == after_ticks(IntervalState::fresh(base), before));
            assert(later[p].id == id);
            if id_is_due(later, id) {
                let i = choose|i: int|
                    0 <= i < later.len() && (#[trigger] later[i]).id == id
                        && later[i].interval.is_due();
                assert(rows[i].id == id);
                assert(i == p);
            }
        },
        None => {
            if id_is_due(later, id) {
                let i = choose|i: int|
                    0 <= i < later.len() && (#[trigger] later[i]).id == id
                        && later[i].interval.is_due();
                assert(rows[i].id == id);
            }
        },
    }
}

/// The results that are known are those of the applications that have one: each of them is
/// listed, and nothing else.
pub proof fn law_known_results(rows: Seq<RowView>, result: HealthCheckResultView)
    ensures
        known_results(rows).contains(result) == (exists|i: int|
            0 <= i < rows.len() && (#[trigger] rows[i]).result == Some(result)),
        known_results(rows).len() <= rows.len(),
    decreases rows.len(),
{
    if rows.len() > 0 {
        let rest = rows.drop_last();
        law_known_results(rest, result);
        let all = known_results(rows);
        let fewer = known_results(rest);
        if all.contains(result) {
            let k = choose|k: int| 0 <= k < all.len() && all[k] == result;
            if k < fewer.len() {
                assert(fewer[k] == result);
                let i = choose|i: int|
                    0 <= i < rest.len() && (#[trigger] rest[i]).result == Some(result);
                assert(rows[i] == rest[i]);
            } else {
                assert(rows[rows.len() - 1].result == Some(result));
            }
        }
        if exists|i: int| 0 <= i < rows.len() && (#[trigger] rows[i]).result == Some(result) {
            let i = choose|i: int|
                0 <= i < rows.len() && (#[trigger] rows[i]).result == Some(result);
            if i < rest.len() {
                assert(rest[i] == rows[i]);
                let k = choose|k: int| 0 <= k < fewer.len() && fewer[k] == result;
                assert(all[k] == result);
            } else {
                assert(all[fewer.len() as int] == result);
            }
        }
    }
}

/// The identifiers of the results that are known.
pub open spec fn known_ids(rows: Seq<RowView>) -> Seq<Seq<char>> {
    Seq::new(known_results(rows).len(), |k: int| known_results(rows)[k].id)
}

/// Each row holds a result of its own application, if it holds one.
pub open spec fn results_in_place(rows: Seq<RowView>) -> bool {
    forall|i: int|
        0 <= i < rows.len() ==> ((#[trigger] rows[i]).result matches Some(result) ==> result.id
            == rows[i].id)
}

/// An application is among those known exactly if it has a row with a result.
proof fn lemma_known_ids(rows: Seq<RowView>, id: Seq<char>)
    requires
        results_in_place(rows),
    ensures
        known_ids(rows).contains(id) == (exists|i: int|
            0 <= i < rows.len() && (#[trigger] rows[i]).id == id && rows[i].result is Some),
{
    if known_ids(rows).contains(id) {
        let k = choose|k: int| 0 <= k < known_ids(rows).len() && known_ids(rows)[k] == id;
        let result = known_results(rows)[k];
        law_known_results(rows, result);
        assert(known_results(rows).contains(result));
        let i = choose|i: int|
            0 <= i < rows.len() && (#[trigger] rows[i]).result == Some(result);
        assert(rows[i].id == id);
    }
    if exists|i: int|
        0 <= i < rows.len() && (#[trigger] rows[i]).id == id && rows[i].result is Some {
        let i = choose|i: int|
            0 <= i < rows.len() && (#[trigger] rows[i]).id == id && rows[i].result is Some;
        let result = rows[i].result->0;
        law_known_results(rows, result);
        assert(rows[i].result == Some(result));
        let k = choose|k: int|
            0 <= k < known_results(rows).len() && known_results(rows)[k] == result;
        assert(known_ids(rows)[k] == id);
    }
}

/// Rows of distinct applications hold results of distinct applications.
proof fn lemma_known_ids_differ(rows: Seq<RowView>)
    requires
        distinct_rows(rows),
        results_in_place(rows),
    ensures
        known_ids(rows).no_duplicates(),
    decreases rows.len(),
{
    if rows.len() > 0 {
        let rest = rows.drop_last();
        let last = rows.last();
        assert forall|i: int, j: int| 0 <= i < j < rest.len() implies #[trigger] rest[i].id
            != #[trigger] rest[j].id by {
            assert(rest[i] == rows[i] && rest[j] == rows[j]);
        }
        assert forall|i: int| 0 <= i < rest.len() implies ((
        #[trigger] rest[i]).result matches Some(result) ==> result.id == rest[i].id) by {
            assert(rest[i] == rows[i]);
        }
        lemma_known_ids_differ(rest);
        lemma_known_ids(rest, last.id);
        assert(rows[rows.len() - 1] == last);
        if last.result is Some {
            assert(known_ids(rows) =~= known_ids(rest).push(last.id));
            assert(!known_ids(rest).contains(last.id)) by {
                if known_ids(rest).contains(last.id) {
                    let i = choose|i: int|
                        0 <= i < rest.len() && (#[trigger] rest[i]).id == last.id
                            && rest[i].result is Some;
                    assert(rows[i].id == rows[rows.len() - 1].id);
                }
            }
            assert forall|k: int| 0 <= k < known_ids(rest).len() implies known_ids(rest)[k]
                != last.id by {
                assert(known_ids(rest).contains(known_ids(rest)[k]));
            }
        } else {
            assert(known_ids(rows) =~= known_ids(rest));
        }
    }
}

/// A result that was the last of `id` bears that identifier, and whatever follows, `id` has a
/// last result.
proof fn lemma_last_recorded(events: Seq<TableEvent>, more: Seq<TableEvent>, id: Seq<char>)
    ensures
        last_recorded(events, id) matches Some(result) ==> result.id == id,
        last_recorded(events, id) is Some ==> last_recorded(events + more, id) is Some,
    decreases events.len() + more.len(),
{
    if more.len() > 0 {
        assert((events + more).drop_last() =~= events + more.drop_last());
        assert((events + more).last() == more.last());
        lemma_last_recorded(events, more.drop_last(), id);
    } else {
        assert(events + more =~= events);
        if events.len() > 0 {
            lemma_last_recorded(events.drop_last(), more, id);
        }
    }
}

/// The table after any history since the start holds each result with its own application.
pub proof fn lemma_results_in_place(apps: Seq<ApplicationView>, events: Seq<TableEvent>)
    ensures
        distinct_rows(rows_after(initial_rows(apps), events)),
        results_in_place(rows_after(initial_rows(apps), events)),
        forall|i: int|
            0 <= i < initial_rows(apps).len() ==> {
                &&& (#[trigger] rows_after(initial_rows(apps), events)[i]).id == initial_rows(
                    apps,
                )[i].id
                &&& rows_after(initial_rows(apps), events)[i].result == last_recorded(
                    events,
                    initial_rows(apps)[i].id,
                )
            },
{
    let rows = initial_rows(apps);
    let later = rows_after(rows, events);
    law_initial_rows(apps, seq![]);
    law_history(rows, events);
    assert forall|i: int| 0 <= i < rows.len() implies {
        &&& (#[trigger] later[i]).id == rows[i].id
        &&& later[i].result == last_recorded(events, rows[i].id)
        &&& later[i].result matches Some(result) ==> result.id == later[i].id
    } by {
        let id = rows[i].id;
        law_initial_rows(apps, id);
        lemma_row_index_holds(rows, id);
        assert(row_index(rows, id) == i);
        assert(rows[i].result is None);
        lemma_last_recorded(events, seq![], id);
    }
}

/// Whatever happened since the start, the results that are known are of distinct applications,
/// each of them one whose interval can be read. An application of which a result is known stays
/// one, whatever more happens.
pub proof fn law_known_applications(
    apps: Seq<ApplicationView>,
    events: Seq<TableEvent>,
    more: Seq<TableEvent>,
)
    ensures
        known_ids(rows_after(initial_rows(apps), events)).no_duplicates(),
        forall|id: Seq<char>| #[trigger]
            known_ids(rows_after(initial_rows(apps), events)).contains(id) ==> last_readable(
                apps,
                id,
            ) is Some && known_ids(rows_after(initial_rows(apps), events + more)).contains(id),
{
    let rows = initial_rows(apps);
    let now = rows_after(rows, events);
    let later = rows_after(rows, events + more);
    law_initial_rows(apps, seq![]);
    law_history(rows, events);
    law_history(rows, events + more);
    lemma_results_in_place(apps, events);
    lemma_results_in_place(apps, events + more);
    lemma_known_ids_differ(now);
    assert forall|id: Seq<char>| #[trigger] known_ids(now).contains(id) implies last_readable(
        apps,
        id,
    ) is Some && known_ids(later).contains(id) by {
        lemma_known_ids(now, id);
        lemma_known_ids(later, id);
        let i = choose|i: int|
            0 <= i < now.len() && (#[trigger] now[i]).id == id && now[i].result is Some;
        assert(rows[i].id == id);
        law_initial_rows(apps, id);
        lemma_row_index_holds(rows, id);
        lemma_last_recorded(events, more, id);
        assert(later[i].id == id && later[i].result is Some);
    }
}

} // verus!
