//! What is asked of Docker, and what becomes known of a container.

use crate::docker_monitor::{
    filter_views, law_every_round_lists_all, metrics_of, monitor_after, ContainerMetrics,
    ContainerMetricsView, ContainerState, ContainerStats, ContainerSummary, ContainerSummaryView,
    CpuSample, DockerMonitorView, HealthStatus, ListRequest, MonitorRoundView, RoundAction, RoundEvent, DOCKER_SOCKET_TIMEOUT,
    ROUND_PAUSE_SECS,
};
use crate::text::spelled;
use vstd::prelude::*;

verus! {

/// A number that was told, or what stands for it.
pub open spec fn told(n: Option<u64>, otherwise: u64) -> u64 {
    match n {
        Some(n) => n,
        None => otherwise,
    }
}

/// The counters of a container are given if and only if there are two readings and both the use
/// by the container and that by the machine went up from the earlier to the present one. They
/// are those that the two readings tell, and the number of processors is the one that the
/// present reading tells, 1 only where it tells none.
pub proof fn law_cpu_counters(stats: ContainerStats, cpu: CpuSample, pre: CpuSample)
    requires
        stats.cpu == Some(cpu),
        stats.precpu == Some(pre),
        cpu.total_usage is Some,
        pre.total_usage is Some,
    ensures
        stats.is_complete(),
        stats.counters() is Some <==> cpu.total_usage->0 > pre.total_usage->0 && told(
            cpu.system_cpu_usage,
            0,
        ) > told(pre.system_cpu_usage, 0),
        stats.counters() matches Some(counters) ==> {
            &&& counters.total == cpu.total_usage->0
            &&& counters.previous_total == pre.total_usage->0
            &&& counters.system == told(cpu.system_cpu_usage, 0)
            &&& counters.previous_system == told(pre.system_cpu_usage, 0)
            &&& cpu.online_cpus matches Some(n) ==> counters.online_cpus == n
            &&& cpu.online_cpus is None ==> counters.online_cpus == 1
        },
{
}

/// The number of processors in the earlier reading, and the use of memory, have no part in the
/// counters. Without one of the readings there are none.
pub proof fn law_cpu_counters_depend(a: ContainerStats, b: ContainerStats)
    requires
        a.cpu == b.cpu,
        a.precpu is Some && b.precpu is Some,
        a.precpu->0.total_usage == b.precpu->0.total_usage,
        a.precpu->0.system_cpu_usage == b.precpu->0.system_cpu_usage,
    ensures
        a.counters() == b.counters(),
        a.cpu is None ==> a.counters() is None,
        (ContainerStats { precpu: None, ..a }).counters() is None,
{
}

/// Readings are complete unless there are two of them and one does not tell the use by the
/// container.
pub proof fn law_complete(stats: ContainerStats)
    ensures
        !stats.is_complete() <==> stats.cpu is Some && stats.precpu is Some && (
        stats.cpu->0.total_usage is None || stats.precpu->0.total_usage is None),
{
}

/// What becomes known of a container: its identifier, the first of its names without the mark in
/// front, its status and health as they were told, and the use and the limit of memory as they
/// were told. A container without a health check has the health `NoCheck`, and memory that is
/// not told is none of one.
pub proof fn law_metrics(
    container: ContainerSummary,
    mark: char,
    name: Seq<char>,
    stats: ContainerStats,
    state: ContainerState,
    metrics: ContainerMetrics,
)
    requires
        container.names is Some && container.names->0@.len() > 0,
        container.names->0@[0]@ == seq![mark] + name,
        mark as u32 <= 0x7f,
        state.status is Some,
        state.health matches Some(health) ==> health is Some,
        metrics@ == metrics_of(container@, stats, state),
    ensures
        container@.is_named(),
        state.is_complete(),
        container.id matches Some(id) ==> metrics.id@ == id@,
        container.id is None ==> metrics.id@.len() == 0,
        metrics.name@ == name,
        metrics.status == state.status->0,
        state.health matches Some(health) ==> metrics.health == health->0,
        state.health is None ==> metrics.health == HealthStatus::NoCheck,
        metrics.cpu == stats.counters(),
        stats.memory matches Some(memory) ==> metrics.mem_usage == told(memory.usage, 0)
            && metrics.mem_limit == told(memory.limit, 1),
        stats.memory is None ==> metrics.mem_usage == 0 && metrics.mem_limit == 1,
{
    let first = spelled(container.names->0@)[0];
    assert(first == seq![mark] + name);
    assert(first.skip(1) =~= name);
}

/// A container without a name, or whose first name begins with anything but a character of one
/// byte, cannot be shown.
pub proof fn law_unnamed(container: ContainerSummary)
    ensures
        container@.is_named() <==> container.names is Some && container.names->0@.len() > 0
            && container.names->0@[0]@.len() > 0 && container.names->0@[0]@[0] as u32 <= 0x7f,
{
}

/// A state is complete if and only if it tells the status, and the health where there is a
/// health check.
pub proof fn law_state_complete(state: ContainerState)
    ensures
        state.is_complete() <==> state.status is Some && state.health != Some(
            None::<HealthStatus>,
        ),
{
}

/// A round begins before the first container of the list, or over none where the list failed,
/// with nothing found.
pub proof fn law_round_starts(listed: Seq<ContainerSummaryView>)
    ensures
        MonitorRoundView::started(Some(listed)).containers == listed,
        MonitorRoundView::started(Some(listed)).next == 0,
        MonitorRoundView::started(Some(listed)).stats is None,
        MonitorRoundView::started(Some(listed)).metrics.len() == 0,
        MonitorRoundView::started(None).containers.len() == 0,
        MonitorRoundView::started(None).metrics.len() == 0,
        MonitorRoundView::started(None).next == 0,
{
}

/// A round asks for the resources of the container that it is at, then for its state, and makes
/// known what it found when there is no container left, and not before.
pub proof fn law_round_asks(round: MonitorRoundView, action: RoundAction)
    requires
        round.wf(),
        action@ == round.action(),
    ensures
        action is Publish <==> round.next == round.containers.len(),
        round.next < round.containers.len() && round.stats is None ==> (
        action matches RoundAction::FetchStats { id } && id@ == round.containers[round.next].id),
        round.next < round.containers.len() && round.stats is Some ==> (
        action matches RoundAction::Inspect { id } && id@ == round.containers[round.next].id),
{
}

/// A container of whose resources nothing is told is passed over. One of which all is told is
/// entered behind those before it, and none of those is changed or lost.
pub proof fn law_round_goes_on(
    round: MonitorRoundView,
    stats: ContainerStats,
    state: ContainerState,
)
    requires
        round.wf(),
        round.next < round.containers.len(),
        round.containers[round.next].is_named(),
        round.stats is None,
        stats.is_complete(),
        state.is_complete(),
    ensures
        round.takes(RoundEvent::Stats(None)),
        round.stepped(RoundEvent::Stats(None)) == (MonitorRoundView {
            containers: round.containers,
            next: round.next + 1,
            stats: None,
            metrics: round.metrics,
        }),
        round.takes(RoundEvent::Stats(Some(stats))),
        round.stepped(RoundEvent::Stats(Some(stats))).takes(RoundEvent::Inspected(Some(state))),
        round.stepped(RoundEvent::Stats(Some(stats))).stepped(RoundEvent::Inspected(Some(state)))
            == (MonitorRoundView {
            containers: round.containers,
            next: round.next + 1,
            stats: None,
            metrics: round.metrics + seq![metrics_of(round.containers[round.next], stats, state)],
        }),
        !round.takes(RoundEvent::Inspected(Some(state))),
{
    let metrics = metrics_of(round.containers[round.next], stats, state);
    assert(round.metrics.push(metrics) =~= round.metrics + seq![metrics]);
}

/// A round takes up an answer exactly if it is at a container that has a name and the answer is
/// to what it asked. Of the resources it takes that nothing is told, and what two readings that
/// both tell the use by the container, or fewer readings, tell. Of the state it takes what tells
/// the status, and the health where there is a health check.
pub proof fn law_round_takes(round: MonitorRoundView, event: RoundEvent)
    requires
        round.wf(),
    ensures
        round.takes(event) <==> round.next < round.containers.len()
            && round.containers[round.next].is_named() && match event {
            RoundEvent::Stats(None) => round.stats is None,
            RoundEvent::Stats(Some(stats)) => round.stats is None && !(stats.cpu is Some
                && stats.precpu is Some && (stats.cpu->0.total_usage is None
                || stats.precpu->0.total_usage is None)),
            RoundEvent::Inspected(None) => false,
            RoundEvent::Inspected(Some(state)) => round.stats is Some && state.status is Some
                && state.health != Some(None::<HealthStatus>),
        },
{
}

/// Each round lists all containers, running or not, whatever earlier rounds found. It filters by
/// the label `hnm.enable=true`, and by nothing else, exactly if that was configured when the
/// monitor was made.
pub proof fn law_list_request(
    use_filter: bool,
    rounds: Seq<Seq<ContainerMetricsView>>,
    request: ListRequest,
)
    requires
        request@ == monitor_after(
            DockerMonitorView::started(use_filter),
            rounds,
        ).list_request(),
    ensures
        request.all,
        !use_filter ==> request.filters@.len() == 0,
        use_filter ==> {
            &&& request.filters@.len() == 1
            &&& request.filters@[0].0@ == "label"@
            &&& request.filters@[0].1@.len() == 1
            &&& request.filters@[0].1@[0]@ == "hnm.enable=true"@
        },
{
    law_every_round_lists_all(use_filter, rounds);
    assert(filter_views(request.filters@).len() == request.filters@.len());
    if use_filter {
        let filter = request.filters@[0];
        assert(filter_views(request.filters@)[0] == (filter.0@, spelled(filter.1@)));
        assert(spelled(filter.1@).len() == filter.1@.len());
        assert(spelled(filter.1@)[0] == filter.1@[0]@);
    }
}

/// What a round found takes the place of all that was known, and a monitor knows nothing before
/// the first.
pub proof fn law_publish(
    monitor: DockerMonitorView,
    use_filter: bool,
    metrics: Seq<ContainerMetricsView>,
)
    ensures
        monitor.published(metrics).metrics == metrics,
        monitor.published(metrics).use_filter == monitor.use_filter,
        DockerMonitorView::started(use_filter).metrics.len() == 0,
        DockerMonitorView::started(use_filter).use_filter == use_filter,
{
}

/// Docker has two minutes to answer, and two seconds lie between two rounds.
pub proof fn law_times()
    ensures
        DOCKER_SOCKET_TIMEOUT == 120,
        ROUND_PAUSE_SECS == 2,
{
}

} // verus!
