//! Whole histories, run through the operations one by one. What comes out is proved from the
//! contracts of the operations to be what the laws speak of.

use crate::config::{
    application_views, load_config, load_step, watch_config, watched_all, Application, Config,
    Docker, LoadAction, LoadEvent, RawConfig, WatchEvent,
};
use crate::docker_monitor::{
    events_fit, metrics_views, monitor_after, round_after, summary_views, ContainerMetrics,
    ContainerMetricsView, ContainerSummary, DockerMonitor, DockerMonitorView, ListRequest,
    MonitorRound, MonitorRoundView, RoundAction, RoundEvent,
};
use crate::health_check::check::{answers_fit, run_after, Answer, CheckRun, Next};
use crate::health_check::laws::{rows_after, TableEvent};
use crate::health_check::{
    due_applications, initial_applications, initial_rows, known_results, lemma_row_index_holds,
    result_views, HealthCheckManager, HealthCheckResult,
};
use crate::system_status::{
    known_after, DynamicStatView, Readings, StaticStat, SystemStatusManager, SystemStatusResult,
};
use vstd::prelude::*;

verus! {

/// Makes a check with the given answers, up to the first that is none to what it asked for, and
/// gives all that it asked for on the way.
pub fn replay_check(app: Application, days: i64, answers: Vec<Answer>) -> (asked: Vec<Next>)
    ensures
        1 <= asked@.len() <= answers@.len() + 1,
        answers_fit(app@, days, answers@.take(asked@.len() - 1)),
        asked@.len() <= answers@.len() ==> !run_after(
            app@,
            days,
            answers@.take(asked@.len() - 1),
        ).0.takes(answers@[asked@.len() - 1]),
        forall|i: int|
            0 <= i < asked@.len() ==> (#[trigger] asked@[i])@ == run_after(
                app@,
                days,
                answers@.take(i),
            ).1,
{
    let ghost checked = app@;
    let ghost all = answers@;
    let (mut run, first) = CheckRun::start(app, days);
    let mut asked: Vec<Next> = Vec::new();
    asked.push(first);
    assert(all.take(0) =~= seq![]);
    for answer in it: answers.into_iter()
        invariant
            checked == app@,
            all == answers@,
            it.seq() == all,
            answers_fit(checked, days, all.take(it.index())),
            asked@.len() == it.index() + 1,
            run@ == run_after(checked, days, all.take(it.index())).0,
            forall|i: int|
                0 <= i <= it.index() ==> (#[trigger] asked@[i])@ == run_after(
                    checked,
                    days,
                    all.take(i),
                ).1,
    {
        if !run.takes(&answer) {
            return asked;
        }
        proof {
            let k = it.index();
            assert(all.take(k + 1).drop_last() =~= all.take(k));
            assert(all.take(k + 1).last() == all[k]);
        }
        asked.push(run.step(answer));
    }
    asked
}

/// Something that happens to the table of a worker.
pub enum Happening {
    Tick,
    Finished(HealthCheckResult),
}

/// The same in terms of the laws.
pub open spec fn table_event(happening: Happening) -> TableEvent {
    match happening {
        Happening::Tick => TableEvent::Tick,
        Happening::Finished(result) => TableEvent::Record(result@),
    }
}

pub open spec fn table_events(happenings: Seq<Happening>) -> Seq<TableEvent> {
    Seq::new(happenings.len(), |i: int| table_event(happenings[i]))
}

/// Runs the table of a worker through what happens. Gives the applications that are checked at
/// the start, those that are checked at each tick, and the results that are known at the end.
pub fn replay_table(config: &Config, happenings: Vec<Happening>) -> (r: (
    Vec<Application>,
    Vec<Vec<Application>>,
    Vec<HealthCheckResult>,
))
    ensures
        r.0@.len() == config.applications@.len(),
        forall|i: int|
            0 <= i < r.0@.len() ==> (#[trigger] r.0@[i])@ == config.applications@[i]@,
        r.1@.len() == happenings@.len(),
        forall|i: int|
            0 <= i < happenings@.len() && happenings@[i] is Tick ==> application_views(
                (#[trigger] r.1@[i])@,
            ) == due_applications(
                rows_after(
                    initial_rows(config@.applications),
                    table_events(happenings@.take(i)),
                ),
                config@.applications,
            ),
        result_views(r.2@) == known_results(
            rows_after(initial_rows(config@.applications), table_events(happenings@)),
        ),
{
    let first = initial_applications(config);
    assert(application_views(first@).len() == first@.len());
    assert(application_views(config.applications@).len() == config.applications@.len());
    assert forall|i: int| 0 <= i < first@.len() implies (#[trigger] first@[i])@
        == config.applications@[i]@ by {
        assert(application_views(first@)[i] == first@[i]@);
        assert(application_views(config.applications@)[i] == config.applications@[i]@);
    }
    let ghost all = happenings@;
    let ghost rows = initial_rows(config@.applications);
    let mut manager = HealthCheckManager::new(config);
    let mut checked: Vec<Vec<Application>> = Vec::new();
    assert(table_events(all.take(0)) =~= seq![]);
    for happening in it: happenings.into_iter()
        invariant
            it.seq() == all,
            rows == initial_rows(config@.applications),
            manager.wf(),
            manager@ == rows_after(rows, table_events(all.take(it.index()))),
            checked@.len() == it.index(),
            forall|i: int|
                0 <= i < it.index() && all[i] is Tick ==> application_views(
                    (#[trigger] checked@[i])@,
                ) == due_applications(
                    rows_after(rows, table_events(all.take(i))),
                    config@.applications,
                ),
    {
        proof {
            let k = it.index();
            let longer = table_events(all.take(k + 1));
            assert(longer.drop_last() =~= table_events(all.take(k)));
            assert(longer.last() == table_event(all[k]));
        }
        match happening {
            Happening::Tick => {
                let due = manager.scheduler_tick(config);
                checked.push(due);
            },
            Happening::Finished(result) => {
                let ghost before = manager@;
                let ghost id = result@.id;
                let entered = manager.record(Some(result));
                proof {
                    lemma_row_index_holds(before, id);
                }
                assert(entered <==> exists|i: int|
                    0 <= i < before.len() && (#[trigger] before[i]).id == id);
                checked.push(Vec::new());
            },
        }
    }
    assert(all.take(all.len() as int) =~= all);
    let results = manager.get_health_check_results();
    (first, checked, results)
}

/// How a round over the containers that were listed begins.
pub open spec fn round_start(listed: Option<Vec<ContainerSummary>>) -> MonitorRoundView {
    MonitorRoundView::started(
        match listed {
            Some(containers) => Some(summary_views(containers@)),
            None => None,
        },
    )
}

/// Makes a round with the given answers of Docker, up to the first that the round cannot take up.
/// Gives what was asked for each of the answers that were taken up, and what the round found.
pub fn replay_round(listed: Option<Vec<ContainerSummary>>, events: Vec<RoundEvent>) -> (r: (
    Vec<RoundAction>,
    Vec<ContainerMetrics>,
))
    ensures
        r.0@.len() <= events@.len(),
        events_fit(round_start(listed), events@.take(r.0@.len() as int)),
        r.0@.len() < events@.len() ==> !round_after(
            round_start(listed),
            events@.take(r.0@.len() as int),
        ).takes(events@[r.0@.len() as int]),
        forall|i: int|
            0 <= i < r.0@.len() ==> (#[trigger] r.0@[i])@ == round_after(
                round_start(listed),
                events@.take(i),
            ).action(),
        metrics_views(r.1@) == round_after(
            round_start(listed),
            events@.take(r.0@.len() as int),
        ).metrics,
{
    let ghost start = round_start(listed);
    let ghost all = events@;
    let mut round = MonitorRound::start(listed);
    let mut asked: Vec<RoundAction> = Vec::new();
    assert(all.take(0) =~= seq![]);
    for event in it: events.into_iter()
        invariant
            start == round_start(listed),
            all == events@,
            it.seq() == all,
            events_fit(start, all.take(it.index())),
            round.wf(),
            round@ == round_after(start, all.take(it.index())),
            asked@.len() == it.index(),
            forall|i: int|
                0 <= i < it.index() ==> (#[trigger] asked@[i])@ == round_after(
                    start,
                    all.take(i),
                ).action(),
    {
        if !round.ready() || !round.takes(&event) {
            return (asked, round.finish());
        }
        proof {
            let k = it.index();
            assert(all.take(k + 1).drop_last() =~= all.take(k));
            assert(all.take(k + 1).last() == all[k]);
        }
        asked.push(round.action());
        round.step(event);
    }
    (asked, round.finish())
}

/// What a number of rounds found.
pub open spec fn found_views(rounds: Seq<Vec<ContainerMetrics>>) -> Seq<Seq<ContainerMetricsView>> {
    Seq::new(rounds.len(), |i: int| metrics_views(rounds[i]@))
}

/// Makes known what a number of rounds found. Gives what the next round lists, and what is known.
pub fn replay_monitor(dkr_cfg: &Docker, rounds: Vec<Vec<ContainerMetrics>>) -> (r: (
    ListRequest,
    Vec<ContainerMetrics>,
))
    ensures
        r.0@ == monitor_after(
            DockerMonitorView::started(dkr_cfg.enable_label_filter),
            found_views(rounds@),
        ).list_request(),
        metrics_views(r.1@) == monitor_after(
            DockerMonitorView::started(dkr_cfg.enable_label_filter),
            found_views(rounds@),
        ).metrics,
{
    let ghost start = DockerMonitorView::started(dkr_cfg.enable_label_filter);
    let ghost all = rounds@;
    let mut monitor = DockerMonitor::new(dkr_cfg);
    assert(found_views(all.take(0)) =~= seq![]);
    for metrics in it: rounds.into_iter()
        invariant
            it.seq() == all,
            monitor@ == monitor_after(start, found_views(all.take(it.index()))),
    {
        proof {
            let k = it.index();
            let longer = found_views(all.take(k + 1));
            assert(longer.drop_last() =~= found_views(all.take(k)));
            assert(longer.last() == metrics_views(all[k]@));
        }
        monitor.publish(metrics);
    }
    assert(all.take(all.len() as int) =~= all);
    (monitor.list_request(), monitor.get_metrics())
}

/// What is to be done after each of a number of events while the configuration is loaded.
pub fn replay_load(events: Vec<LoadEvent>) -> (actions: Vec<LoadAction>)
    ensures
        actions@.len() == events@.len(),
        forall|i: int|
            0 <= i < events@.len() ==> (#[trigger] actions@[i])@ == load_step(events@[i]),
{
    let ghost all = events@;
    let mut actions: Vec<LoadAction> = Vec::new();
    for event in it: events.into_iter()
        invariant
            it.seq() == all,
            actions@.len() == it.index(),
            forall|i: int|
                0 <= i < it.index() ==> (#[trigger] actions@[i])@ == load_step(all[i]),
    {
        actions.push(load_config(event));
    }
    actions
}

/// Starts with the configuration that was read, and takes up the reports of the watch on the
/// file.
pub fn replay_config(raw: RawConfig, events: Vec<WatchEvent>) -> (action: LoadAction)
    ensures
        action matches LoadAction::Use(config) && config@ == watched_all(raw.completed(), events@),
{
    let ghost all = events@;
    match load_config(LoadEvent::Parsed(raw)) {
        LoadAction::Use(config) => {
            let mut config = config;
            assert(all.take(0) =~= seq![]);
            for event in it: events.into_iter()
                invariant
                    it.seq() == all,
                    config@ == watched_all(raw.completed(), all.take(it.index())),
            {
                proof {
                    let k = it.index();
                    assert(all.take(k + 1).drop_last() =~= all.take(k));
                    assert(all.take(k + 1).last() == all[k]);
                }
                let ghost reloaded = event is Reloaded;
                let replaced = watch_config(&mut config, event);
                assert(replaced == reloaded);
            }
            assert(all.take(all.len() as int) =~= all);
            LoadAction::Use(config)
        },
        other => other,
    }
}

/// What is known of the changing state after a number of readings.
pub open spec fn status_after<F>(
    start: DynamicStatView<F>,
    later: Seq<(Readings<F>, u128)>,
) -> DynamicStatView<F>
    decreases later.len(),
{
    if later.len() == 0 {
        start
    } else {
        known_after(status_after(start, later.drop_last()), later.last().0, later.last().1)
    }
}

/// Takes up readings of the machine one after the other, each with the time since the one before,
/// and gives what is known at the end.
pub fn replay_status<F: Copy>(
    fixed: StaticStat,
    first: Readings<F>,
    later: Vec<(Readings<F>, u128)>,
) -> (status: SystemStatusResult<F>)
    requires
        first.add_up(),
    ensures
        status.0 == fixed,
        status.1@ == status_after(first.collected(1_000_000_000), later@),
{
    let ghost start = first.collected(1_000_000_000);
    let ghost all = later@;
    let mut manager = SystemStatusManager::new(fixed, first);
    assert(all.take(0) =~= seq![]);
    for readings in it: later.into_iter()
        invariant
            it.seq() == all,
            manager.wf(),
            manager.fixed() == fixed,
            manager.latest() == status_after(start, all.take(it.index())),
    {
        proof {
            let k = it.index();
            assert(all.take(k + 1).drop_last() =~= all.take(k));
            assert(all.take(k + 1).last() == all[k]);
        }
        let ghost fits = readings.0.add_up();
        let taken = manager.update(readings.0, readings.1);
        assert(taken == fits);
    }
    assert(all.take(all.len() as int) =~= all);
    manager.get_system_status()
}

} // verus!
