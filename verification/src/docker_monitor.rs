//! The containers of the machine: what is asked of Docker in a round, and what is made of its
//! answers.

use crate::config::Docker;
use crate::text::{characters, spelled};
use vstd::prelude::*;

verus! {

/// How long Docker may take to answer, in seconds.
pub const DOCKER_SOCKET_TIMEOUT: u64 = 120;

/// The pause between two rounds, in seconds.
pub const ROUND_PAUSE_SECS: u64 = 2;

/// What a container does.
#[derive(Debug, Clone, Copy, PartialEq, Eq, Structural)]
pub enum ContainerStatus {
    Empty,
    Created,
    Running,
    Paused,
    Restarting,
    Removing,
    Exited,
    Dead,
    Stopping,
}

/// What the health check of a container says.
#[derive(Debug, Clone, Copy, PartialEq, Eq, Structural)]
pub enum HealthStatus {
    Empty,
    /// There is no health check.
    NoCheck,
    Starting,
    Healthy,
    Unhealthy,
}

/// A container in a list of containers.
pub struct ContainerSummary {
    pub id: Option<String>,
    pub names: Option<Vec<String>>,
}

pub struct ContainerSummaryView {
    pub id: Seq<char>,
    pub names: Option<Seq<Seq<char>>>,
}

impl View for ContainerSummary {
    type V = ContainerSummaryView;

    open spec fn view(&self) -> ContainerSummaryView {
        ContainerSummaryView {
            id: match self.id {
                Some(id) => id@,
                None => seq![],
            },
            names: match self.names {
                Some(names) => Some(spelled(names@)),
                None => None,
            },
        }
    }
}

impl ContainerSummaryView {
    /// The container has a name, and its first name begins with a mark of one byte.
    pub open spec fn is_named(self) -> bool {
        &&& self.names is Some
        &&& self.names->0.len() > 0
        &&& self.names->0[0].len() > 0
        &&& self.names->0[0][0] as u32 <= 0x7f
    }

    /// The first name without the mark that it begins with.
    pub open spec fn shown_name(self) -> Seq<char> {
        self.names->0[0].skip(1)
    }
}

impl ContainerSummary {
    /// Tells whether the container has a name to show.
    pub fn is_named(&self) -> (b: bool)
        ensures
            b == self@.is_named(),
    {
        match &self.names {
            Some(names) => {
                if names.len() == 0 {
                    return false;
                }
                let chars = characters(names[0].as_str());
                assert(chars@ == self@.names->0[0]);
                chars.len() > 0 && chars[0] as u32 <= 0x7f
            },
            None => false,
        }
    }

    /// The name of the container, without the mark in front.
    pub fn shown_name(&self) -> (name: String)
        requires
            self@.is_named(),
        ensures
            name@ == self@.shown_name(),
    {
        match &self.names {
            Some(names) => {
                let name = names[0].as_str();
                let length = name.unicode_len();
                assert(name@ == self@.names->0[0]);
                assert(name@.subrange(1, length as int) =~= name@.skip(1));
                name.substring_char(1, length).to_owned()
            },
            None => String::new(),
        }
    }

    /// The identifier of the container; empty where it has none.
    pub fn shown_id(&self) -> (id: String)
        ensures
            id@ == self@.id,
    {
        match &self.id {
            Some(id) => id.clone(),
            None => String::new(),
        }
    }
}

/// A reading of the processor counters of a container and of the machine.
#[derive(Debug, Clone, Copy)]
pub struct CpuSample {
    pub total_usage: Option<u64>,
    pub system_cpu_usage: Option<u64>,
    pub online_cpus: Option<u32>,
}

/// The use of memory by a container.
#[derive(Debug, Clone, Copy)]
pub struct MemoryStats {
    pub usage: Option<u64>,
    pub limit: Option<u64>,
}

/// What Docker tells of the resources that a container uses.
#[derive(Debug, Clone, Copy)]
pub struct ContainerStats {
    pub cpu: Option<CpuSample>,
    pub precpu: Option<CpuSample>,
    pub memory: Option<MemoryStats>,
}

/// The counters that the share of a container in the processors is the quotient of.
#[derive(Debug, Clone, Copy, PartialEq, Eq, Structural)]
pub struct CpuCounters {
    pub total: u64,
    pub previous_total: u64,
    pub system: u64,
    pub previous_system: u64,
    pub online_cpus: u32,
}

/// What stands for a number that is not told.
pub open spec fn number_or(n: Option<u64>, otherwise: u64) -> u64 {
    match n {
        Some(n) => n,
        None => otherwise,
    }
}

impl ContainerStats {
    /// Where there are two readings of the counters, both tell the use by the container.
    pub open spec fn is_complete(self) -> bool {
        self.cpu is Some && self.precpu is Some ==> self.cpu->0.total_usage is Some
            && self.precpu->0.total_usage is Some
    }

    /// The counters, if there are two readings and both counters have gone up between them.
    /// Otherwise the share is zero.
    pub open spec fn counters(self) -> Option<CpuCounters> {
        match (self.cpu, self.precpu) {
            (Some(cpu), Some(pre)) => {
                let counters = CpuCounters {
                    total: cpu.total_usage->0,
                    previous_total: pre.total_usage->0,
                    system: number_or(cpu.system_cpu_usage, 0),
                    previous_system: number_or(pre.system_cpu_usage, 0),
                    online_cpus: match cpu.online_cpus {
                        Some(n) => n,
                        None => 1,
                    },
                };
                if counters.total > counters.previous_total && counters.system
                    > counters.previous_system {
                    Some(counters)
                } else {
                    None
                }
            },
            _ => None,
        }
    }

    /// The use of memory and its limit: 0 and 1 where they are not told.
    pub open spec fn memory_use(self) -> (u64, u64) {
        match self.memory {
            Some(memory) => (number_or(memory.usage, 0), number_or(memory.limit, 1)),
            None => (0, 1),
        }
    }

    /// Tells whether the readings of the counters are complete.
    pub fn complete(&self) -> (b: bool)
        ensures
            b == self.is_complete(),
    {
        match (self.cpu, self.precpu) {
            (Some(cpu), Some(pre)) => cpu.total_usage.is_some() && pre.total_usage.is_some(),
            _ => true,
        }
    }

    /// The counters from which the share in the processors follows; `None` where it is zero.
    pub fn cpu_counters(&self) -> (counters: Option<CpuCounters>)
        requires
            self.is_complete(),
        ensures
            counters == self.counters(),
    {
        match (self.cpu, self.precpu) {
            (Some(cpu), Some(pre)) => {
                let counters = CpuCounters {
                    total: cpu.total_usage.unwrap(),
                    previous_total: pre.total_usage.unwrap(),
                    system: cpu.system_cpu_usage.unwrap_or(0),
                    previous_system: pre.system_cpu_usage.unwrap_or(0),
                    online_cpus: cpu.online_cpus.unwrap_or(1),
                };
                if counters.total > counters.previous_total && counters.system
                    > counters.previous_system {
                    Some(counters)
                } else {
                    None
                }
            },
            _ => None,
        }
    }

    /// The use of memory and its limit.
    pub fn memory_usage(&self) -> (r: (u64, u64))
        ensures
            r == self.memory_use(),
    {
        match self.memory {
            Some(memory) => (memory.usage.unwrap_or(0), memory.limit.unwrap_or(1)),
            None => (0, 1),
        }
    }
}

/// What Docker tells of the state of a container. The health is told only of a container
/// with a health check.
#[derive(Debug, Clone, Copy)]
pub struct ContainerState {
    pub status: Option<ContainerStatus>,
    pub health: Option<Option<HealthStatus>>,
}

impl ContainerState {
    /// The status is told, and the health of a container that has a health check.
    pub open spec fn is_complete(self) -> bool {
        self.status is Some && (self.health is Some ==> self.health->0 is Some)
    }

    /// The health; `NoCheck` for a container without a health check.
    pub open spec fn shown_health(self) -> HealthStatus {
        match self.health {
            Some(health) => health->0,
            None => HealthStatus::NoCheck,
        }
    }
}

/// What is known of a container.
#[derive(Debug)]
pub struct ContainerMetrics {
    pub id: String,
    pub name: String,
    pub status: ContainerStatus,
    pub health: HealthStatus,
    pub cpu: Option<CpuCounters>,
    pub mem_usage: u64,
    pub mem_limit: u64,
}

pub struct ContainerMetricsView {
    pub id: Seq<char>,
    pub name: Seq<char>,
    pub status: ContainerStatus,
    pub health: HealthStatus,
    pub cpu: Option<CpuCounters>,
    pub mem_usage: u64,
    pub mem_limit: u64,
}

impl View for ContainerMetrics {
    type V = ContainerMetricsView;

    open spec fn view(&self) -> ContainerMetricsView {
        ContainerMetricsView {
            id: self.id@,
            name: self.name@,
            status: self.status,
            health: self.health,
            cpu: self.cpu,
            mem_usage: self.mem_usage,
            mem_limit: self.mem_limit,
        }
    }
}

impl Clone for ContainerMetrics {
    fn clone(&self) -> (r: Self)
        ensures
            r == *self,
    {
        ContainerMetrics {
            id: self.id.clone(),
            name: self.name.clone(),
            status: self.status,
            health: self.health,
            cpu: self.cpu,
            mem_usage: self.mem_usage,
            mem_limit: self.mem_limit,
        }
    }
}

/// What a list of metrics says.
pub open spec fn metrics_views(v: Seq<ContainerMetrics>) -> Seq<ContainerMetricsView> {
    Seq::new(v.len(), |i: int| v[i]@)
}

/// What a list of containers says.
pub open spec fn summary_views(v: Seq<ContainerSummary>) -> Seq<ContainerSummaryView> {
    Seq::new(v.len(), |i: int| v[i]@)
}

/// What becomes known of a container from what Docker tells.
pub open spec fn metrics_of(
    container: ContainerSummaryView,
    stats: ContainerStats,
    state: ContainerState,
) -> ContainerMetricsView {
    ContainerMetricsView {
        id: container.id,
        name: container.shown_name(),
        status: state.status->0,
        health: state.shown_health(),
        cpu: stats.counters(),
        mem_usage: stats.memory_use().0,
        mem_limit: stats.memory_use().1,
    }
}

/// A round over the containers while it is made.
pub struct MonitorRound {
    containers: Vec<ContainerSummary>,
    next: usize,
    stats: Option<ContainerStats>,
    metrics: Vec<ContainerMetrics>,
}

pub struct MonitorRoundView {
    /// The containers, in the order of the list.
    pub containers: Seq<ContainerSummaryView>,
    /// The container that the round is at.
    pub next: int,
    /// What was told of the resources that it uses.
    pub stats: Option<ContainerStats>,
    /// What is known of the containers before it.
    pub metrics: Seq<ContainerMetricsView>,
}

impl View for MonitorRound {
    type V = MonitorRoundView;

    closed spec fn view(&self) -> MonitorRoundView {
        MonitorRoundView {
            containers: summary_views(self.containers@),
            next: self.next as int,
            stats: self.stats,
            metrics: metrics_views(self.metrics@),
        }
    }
}

/// What a round does next.
#[derive(Debug)]
pub enum RoundAction {
    /// Ask what resources the container uses.
    FetchStats { id: String },
    /// Ask for the state of the container.
    Inspect { id: String },
    /// Make known what was found.
    Publish,
}

pub enum RoundActionView {
    FetchStats { id: Seq<char> },
    Inspect { id: Seq<char> },
    Publish,
}

impl View for RoundAction {
    type V = RoundActionView;

    open spec fn view(&self) -> RoundActionView {
        match *self {
            RoundAction::FetchStats { id } => RoundActionView::FetchStats { id: id@ },
            RoundAction::Inspect { id } => RoundActionView::Inspect { id: id@ },
            RoundAction::Publish => RoundActionView::Publish,
        }
    }
}

/// An answer of Docker.
#[derive(Debug, Clone, Copy)]
pub enum RoundEvent {
    /// The resources that the container uses, if they were told.
    Stats(Option<ContainerStats>),
    /// The state of the container, if it was told.
    Inspected(Option<ContainerState>),
}

impl MonitorRoundView {
    /// A round over the containers that were listed, none where the list failed.
    pub open spec fn started(listed: Option<Seq<ContainerSummaryView>>) -> MonitorRoundView {
        MonitorRoundView {
            containers: match listed {
                Some(containers) => containers,
                None => seq![],
            },
            next: 0,
            stats: None,
            metrics: seq![],
        }
    }

    /// The round is at one of its containers, or past the last; and it has been told of the
    /// resources of a container only where that has a name.
    pub open spec fn wf(self) -> bool {
        &&& 0 <= self.next <= self.containers.len()
        &&& self.stats is Some ==> {
            &&& self.next < self.containers.len()
            &&& self.containers[self.next].is_named()
            &&& self.stats->0.is_complete()
        }
    }

    /// The container that the round is at has a name, without which the round cannot go on.
    pub open spec fn is_ready(self) -> bool {
        self.next < self.containers.len() ==> self.containers[self.next].is_named()
    }

    /// What the round does next.
    pub open spec fn action(self) -> RoundActionView {
        if self.next >= self.containers.len() {
            RoundActionView::Publish
        } else if self.stats is Some {
            RoundActionView::Inspect { id: self.containers[self.next].id }
        } else {
            RoundActionView::FetchStats { id: self.containers[self.next].id }
        }
    }

    /// `event` answers what the round does next, and tells all that the round needs.
    pub open spec fn takes(self, event: RoundEvent) -> bool {
        &&& self.next < self.containers.len()
        &&& self.is_ready()
        &&& match event {
            RoundEvent::Stats(told) => self.stats is None && (told matches Some(stats)
                ==> stats.is_complete()),
            RoundEvent::Inspected(told) => self.stats is Some && (told matches Some(state)
                && state.is_complete()),
        }
    }

    /// The round after `event`. A container of which no resources are told is passed over.
    pub open spec fn stepped(self, event: RoundEvent) -> MonitorRoundView {
        match event {
            RoundEvent::Stats(Some(stats)) => MonitorRoundView { stats: Some(stats), ..self },
            RoundEvent::Stats(None) => MonitorRoundView { next: self.next + 1, ..self },
            RoundEvent::Inspected(told) => MonitorRoundView {
                next: self.next + 1,
                stats: None,
                metrics: self.metrics.push(
                    metrics_of(self.containers[self.next], self.stats->0, told->0),
                ),
                ..self
            },
        }
    }
}

impl MonitorRound {
    /// The round is in order.
    pub open spec fn wf(&self) -> bool {
        self@.wf()
    }

    /// Begins a round over the containers that were listed, or over none where the list
    /// failed.
    pub fn start(listed: Option<Vec<ContainerSummary>>) -> (round: MonitorRound)
        ensures
            round.wf(),
            round@ == MonitorRoundView::started(
                match listed {
                    Some(containers) => Some(summary_views(containers@)),
                    None => None,
                },
            ),
    {
        let containers = match listed {
            Some(containers) => containers,
            None => Vec::new(),
        };
        let round = MonitorRound { containers, next: 0, stats: None, metrics: Vec::new() };
        assert(round@.metrics =~= seq![]);
        assert(listed is None ==> round@.containers =~= seq![]);
        round
    }

    /// Tells whether the round can go on.
    pub fn ready(&self) -> (b: bool)
        requires
            self.wf(),
        ensures
            b == self@.is_ready(),
    {
        if self.next < self.containers.len() {
            let b = self.containers[self.next].is_named();
            assert(self.containers@[self.next as int]@ == self@.containers[self@.next]);
            b
        } else {
            true
        }
    }

    /// What the round does next.
    pub fn action(&self) -> (action: RoundAction)
        requires
            self.wf(),
            self@.is_ready(),
        ensures
            action@ == self@.action(),
    {
        if self.next >= self.containers.len() {
            RoundAction::Publish
        } else {
            let id = self.containers[self.next].shown_id();
            assert(id@ == self@.containers[self@.next].id);
            if self.stats.is_some() {
                RoundAction::Inspect { id }
            } else {
                RoundAction::FetchStats { id }
            }
        }
    }

    /// Tells whether the round can take up `event`.
    pub fn takes(&self, event: &RoundEvent) -> (b: bool)
        requires
            self.wf(),
        ensures
            b == self@.takes(*event),
    {
        if self.next >= self.containers.len() || !self.ready() {
            return false;
        }
        match event {
            RoundEvent::Stats(told) => self.stats.is_none() && match told {
                Some(stats) => stats.complete(),
                None => true,
            },
            RoundEvent::Inspected(told) => self.stats.is_some() && match told {
                Some(state) => state.status.is_some() && match state.health {
                    Some(health) => health.is_some(),
                    None => true,
                },
                None => false,
            },
        }
    }

    /// Takes up an answer of Docker.
    pub fn step(&mut self, event: RoundEvent)
        requires
            old(self).wf(),
            old(self)@.takes(event),
        ensures
            final(self).wf(),
            final(self)@ == old(self)@.stepped(event),
    {
        let ghost before = self@;
        assert(self.next < self.containers.len());
        match event {
            RoundEvent::Stats(Some(stats)) => {
                self.stats = Some(stats);
            },
            RoundEvent::Stats(None) => {
                self.next = self.next + 1;
            },
            RoundEvent::Inspected(told) => {
                let stats = self.stats.unwrap();
                let state = told.unwrap();
                let container = &self.containers[self.next];
                assert(container@ == before.containers[before.next]);
                let (mem_usage, mem_limit) = stats.memory_usage();
                let health = match state.health {
                    Some(health) => health.unwrap(),
                    None => HealthStatus::NoCheck,
                };
                let metrics = ContainerMetrics {
                    id: container.shown_id(),
                    name: container.shown_name(),
                    status: state.status.unwrap(),
                    health,
                    cpu: stats.cpu_counters(),
                    mem_usage,
                    mem_limit,
                };
                self.metrics.push(metrics);
                assert(metrics_views(self.metrics@) =~= before.metrics.push(metrics@));
                self.next = self.next + 1;
                self.stats = None;
            },
        }
    }

    /// What the round found.
    pub fn finish(self) -> (metrics: Vec<ContainerMetrics>)
        ensures
            metrics_views(metrics@) == self@.metrics,
    {
        self.metrics
    }
}

/// The label that a container has to carry where the list is filtered.
pub open spec fn label_filters(enabled: bool) -> Seq<(Seq<char>, Seq<Seq<char>>)> {
    if enabled {
        seq![("label"@, seq!["hnm.enable=true"@])]
    } else {
        seq![]
    }
}

/// What a list of filters says.
pub open spec fn filter_views(v: Seq<(String, Vec<String>)>) -> Seq<(Seq<char>, Seq<Seq<char>>)> {
    Seq::new(v.len(), |i: int| (v[i].0@, spelled(v[i].1@)))
}

/// What a round asks Docker for at first: a list of the containers.
#[derive(Debug)]
pub struct ListRequest {
    /// List the containers that do not run as well.
    pub all: bool,
    /// The filters that a container has to pass.
    pub filters: Vec<(String, Vec<String>)>,
}

pub struct ListRequestView {
    pub all: bool,
    pub filters: Seq<(Seq<char>, Seq<Seq<char>>)>,
}

impl View for ListRequest {
    type V = ListRequestView;

    open spec fn view(&self) -> ListRequestView {
        ListRequestView { all: self.all, filters: filter_views(self.filters@) }
    }
}

/// What is known of the containers of the machine.
pub struct DockerMonitor {
    use_filter: bool,
    metrics: Vec<ContainerMetrics>,
}

pub struct DockerMonitorView {
    pub use_filter: bool,
    pub metrics: Seq<ContainerMetricsView>,
}

impl DockerMonitorView {
    /// A monitor that knows of no container yet.
    pub open spec fn started(use_filter: bool) -> DockerMonitorView {
        DockerMonitorView { use_filter, metrics: seq![] }
    }

    /// The monitor after a round made known what it found.
    pub open spec fn published(self, metrics: Seq<ContainerMetricsView>) -> DockerMonitorView {
        DockerMonitorView { metrics, ..self }
    }

    /// What the next round asks for at first: all containers, running or not, that pass the
    /// filters.
    pub open spec fn list_request(self) -> ListRequestView {
        ListRequestView { all: true, filters: label_filters(self.use_filter) }
    }
}

impl View for DockerMonitor {
    type V = DockerMonitorView;

    closed spec fn view(&self) -> DockerMonitorView {
        DockerMonitorView { use_filter: self.use_filter, metrics: metrics_views(self.metrics@) }
    }
}

impl DockerMonitor {
    /// A monitor that knows of no container yet.
    pub fn new(dkr_cfg: &Docker) -> (monitor: Self)
        ensures
            monitor@ == DockerMonitorView::started(dkr_cfg@.enable_label_filter),
    {
        let monitor = DockerMonitor {
            use_filter: dkr_cfg.enable_label_filter,
            metrics: Vec::new(),
        };
        assert(monitor@.metrics =~= seq![]);
        monitor
    }

    /// The filters by which containers are listed.
    pub fn filters(&self) -> (filters: Vec<(String, Vec<String>)>)
        ensures
            filter_views(filters@) == label_filters(self@.use_filter),
    {
        let mut filters: Vec<(String, Vec<String>)> = Vec::new();
        if self.use_filter {
            let mut values: Vec<String> = Vec::new();
            values.push("hnm.enable=true".to_owned());
            assert(spelled(values@) =~= seq!["hnm.enable=true"@]);
            filters.push(("label".to_owned(), values));
        }
        assert(filter_views(filters@) =~= label_filters(self@.use_filter));
        filters
    }

    /// The list of containers that a round asks for.
    pub fn list_request(&self) -> (request: ListRequest)
        ensures
            request@ == self@.list_request(),
    {
        ListRequest { all: true, filters: self.filters() }
    }

    /// Makes known what a round found, in place of what was known.
    pub fn publish(&mut self, metrics: Vec<ContainerMetrics>)
        ensures
            final(self)@ == old(self)@.published(metrics_views(metrics@)),
    {
        self.metrics = metrics;
    }

    /// What is known of the containers.
    pub fn get_metrics(&self) -> (metrics: Vec<ContainerMetrics>)
        ensures
            metrics_views(metrics@) == self@.metrics,
    {
        let mut metrics: Vec<ContainerMetrics> = Vec::new();
        for i in 0..self.metrics.len()
            invariant
                metrics@ == self.metrics@.take(i as int),
        {
            metrics.push(self.metrics[i].clone());
        }
        assert(metrics@ =~= self.metrics@);
        metrics
    }
}

/// What Docker tells of a container in a round: nothing of the resources that it uses, or
/// those and its state.
pub enum Told {
    Nothing,
    All(ContainerStats, ContainerState),
}

/// The answers in which that is told.
pub open spec fn answers(told: Seq<Told>) -> Seq<RoundEvent>
    decreases told.len(),
{
    if told.len() == 0 {
        seq![]
    } else {
        match told.last() {
            Told::Nothing => answers(told.drop_last()).push(RoundEvent::Stats(None)),
            Told::All(stats, state) => answers(told.drop_last()).push(
                RoundEvent::Stats(Some(stats)),
            ).push(RoundEvent::Inspected(Some(state))),
        }
    }
}

/// A round after a number of answers.
pub open spec fn round_after(round: MonitorRoundView, events: Seq<RoundEvent>) -> MonitorRoundView
    decreases events.len(),
{
    if events.len() == 0 {
        round
    } else {
        round_after(round, events.drop_last()).stepped(events.last())
    }
}

/// The round could take up each of the answers.
pub open spec fn events_fit(round: MonitorRoundView, events: Seq<RoundEvent>) -> bool
    decreases events.len(),
{
    events.len() > 0 ==> {
        &&& events_fit(round, events.drop_last())
        &&& round_after(round, events.drop_last()).takes(events.last())
    }
}

/// What a round finds: the containers of which something is told, in the order of the list.
pub open spec fn found(containers: Seq<ContainerSummaryView>, told: Seq<Told>) -> Seq<
    ContainerMetricsView,
>
    decreases told.len(),
{
    if told.len() == 0 {
        seq![]
    } else {
        match told.last() {
            Told::Nothing => found(containers, told.drop_last()),
            Told::All(stats, state) => found(containers, told.drop_last()).push(
                metrics_of(containers[told.len() - 1], stats, state),
            ),
        }
    }
}

/// What is told of a container is complete.
pub open spec fn told_completely(told: Told) -> bool {
    told matches Told::All(stats, state) ==> stats.is_complete() && state.is_complete()
}

/// A round over containers that have names takes up what Docker tells of one after the other,
/// and ends, when all have been asked about, with the metrics of those of which it told
/// anything.
pub proof fn law_round(containers: Seq<ContainerSummaryView>, told: Seq<Told>)
    requires
        told.len() <= containers.len(),
        forall|i: int| 0 <= i < containers.len() ==> (#[trigger] containers[i]).is_named(),
        forall|i: int| 0 <= i < told.len() ==> told_completely(#[trigger] told[i]),
    ensures
        events_fit(MonitorRoundView::started(Some(containers)), answers(told)),
        round_after(MonitorRoundView::started(Some(containers)), answers(told)) == (
        MonitorRoundView {
            containers,
            next: told.len() as int,
            stats: None,
            metrics: found(containers, told),
        }),
        told.len() == containers.len() ==> round_after(
            MonitorRoundView::started(Some(containers)),
            answers(told),
        ).action() is Publish,
    decreases told.len(),
{
    let start = MonitorRoundView::started(Some(containers));
    if told.len() > 0 {
        let earlier = told.drop_last();
        assert forall|i: int| 0 <= i < earlier.len() implies told_completely(
            #[trigger] earlier[i],
        ) by {
            assert(earlier[i] == told[i]);
        }
        law_round(containers, earlier);
        assert(told_completely(told[told.len() - 1]));
        assert(containers[earlier.len() as int].is_named());
        match told.last() {
            Told::Nothing => {
                assert(answers(told).drop_last() =~= answers(earlier));
            },
            Told::All(stats, state) => {
                let first = answers(earlier).push(RoundEvent::Stats(Some(stats)));
                assert(first.drop_last() =~= answers(earlier));
                assert(events_fit(start, first));
                assert(answers(told).drop_last() =~= first);
            },
        }
    }
}

/// A monitor after a number of rounds.
pub open spec fn monitor_after(
    monitor: DockerMonitorView,
    rounds: Seq<Seq<ContainerMetricsView>>,
) -> DockerMonitorView
    decreases rounds.len(),
{
    if rounds.len() == 0 {
        monitor
    } else {
        monitor_after(monitor, rounds.drop_last()).published(rounds.last())
    }
}

/// Whatever earlier rounds found, each round lists all containers, running or not. It filters
/// them by the label exactly if that was configured when the monitor was made. What is known is
/// what the last round found.
pub proof fn law_every_round_lists_all(
    use_filter: bool,
    rounds: Seq<Seq<ContainerMetricsView>>,
)
    ensures
        monitor_after(DockerMonitorView::started(use_filter), rounds).list_request() == (
        ListRequestView { all: true, filters: label_filters(use_filter) }),
        monitor_after(DockerMonitorView::started(use_filter), rounds).metrics == (if rounds.len()
            == 0 {
            seq![]
        } else {
            rounds.last()
        }),
    decreases rounds.len(),
{
    if rounds.len() > 0 {
        law_every_round_lists_all(use_filter, rounds.drop_last());
    }
}

} // verus!
