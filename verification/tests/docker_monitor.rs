use worker::config::Docker;
use worker::docker_monitor::{
    ContainerState, ContainerStats, ContainerStatus, ContainerSummary, CpuCounters, CpuSample,
    DockerMonitor, HealthStatus, MemoryStats, MonitorRound, RoundAction, RoundEvent,
    ROUND_PAUSE_SECS,
};

fn container(id: &str, names: &[&str]) -> ContainerSummary {
    ContainerSummary {
        id: Some(id.to_string()),
        names: Some(names.iter().map(|s| s.to_string()).collect()),
    }
}

fn sample(total: u64, system: u64) -> CpuSample {
    CpuSample { total_usage: Some(total), system_cpu_usage: Some(system), online_cpus: Some(4) }
}

fn stats() -> ContainerStats {
    ContainerStats {
        cpu: Some(sample(30, 200)),
        precpu: Some(sample(10, 100)),
        memory: Some(MemoryStats { usage: Some(5), limit: Some(50) }),
    }
}

fn state(status: ContainerStatus) -> ContainerState {
    ContainerState { status: Some(status), health: Some(Some(HealthStatus::Healthy)) }
}

fn monitor(enable_label_filter: bool) -> DockerMonitor {
    DockerMonitor::new(&Docker { enable_label_filter, socket_path: String::new() })
}

#[test]
fn containers_are_filtered_by_label_on_demand() {
    assert!(monitor(false).filters().is_empty());
    assert_eq!(
        monitor(true).filters(),
        vec![("label".to_string(), vec!["hnm.enable=true".to_string()])]
    );
}

#[test]
fn every_round_lists_all_containers() {
    assert_eq!(ROUND_PAUSE_SECS, 2);
    for enabled in [false, true] {
        let mut monitor = monitor(enabled);
        for _ in 0..3 {
            let request = monitor.list_request();
            assert!(request.all);
            assert_eq!(request.filters, monitor.filters());
            assert_eq!(request.filters.len(), if enabled { 1 } else { 0 });
            let mut round = MonitorRound::start(Some(vec![container("1", &["/a"])]));
            round.step(RoundEvent::Stats(Some(stats())));
            round.step(RoundEvent::Inspected(Some(state(ContainerStatus::Exited))));
            monitor.publish(round.finish());
        }
    }
}

#[test]
fn a_container_is_shown_without_the_mark_of_its_name() {
    assert_eq!(container("1", &["/web", "/alias"]).shown_name(), "web");
    assert_eq!(container("1", &["/"]).shown_name(), "");
    assert_eq!(container("1", &["web"]).shown_name(), "eb");
    assert_eq!(container("1", &["/ä"]).shown_name(), "ä");
    assert!(container("1", &["/web"]).is_named());
    assert!(!container("1", &[]).is_named());
    assert!(!container("1", &[""]).is_named());
    assert!(!container("1", &["äx"]).is_named());
    let nameless = ContainerSummary { id: None, names: None };
    assert!(!nameless.is_named());
    assert_eq!(nameless.shown_id(), "");
    assert_eq!(container("abc", &[]).shown_id(), "abc");
}

#[test]
fn counters_are_given_where_both_have_gone_up() {
    assert_eq!(
        stats().cpu_counters(),
        Some(CpuCounters {
            total: 30,
            previous_total: 10,
            system: 200,
            previous_system: 100,
            online_cpus: 4,
        })
    );
    let mut some = stats();
    some.cpu = Some(sample(10, 200));
    assert_eq!(some.cpu_counters(), None);
    some.cpu = Some(sample(30, 100));
    assert_eq!(some.cpu_counters(), None);
    some.cpu = Some(sample(5, 300));
    assert_eq!(some.cpu_counters(), None);
    some.cpu = None;
    assert_eq!(some.cpu_counters(), None);
    some.cpu = Some(CpuSample { total_usage: Some(30), system_cpu_usage: Some(7), online_cpus: None });
    some.precpu = Some(CpuSample { total_usage: Some(10), system_cpu_usage: None, online_cpus: None });
    assert_eq!(
        some.cpu_counters(),
        Some(CpuCounters {
            total: 30,
            previous_total: 10,
            system: 7,
            previous_system: 0,
            online_cpus: 1,
        })
    );
    some.precpu = Some(CpuSample { total_usage: None, system_cpu_usage: None, online_cpus: None });
    assert!(!some.complete());
    some.cpu = None;
    assert!(some.complete());
}

#[test]
fn memory_that_is_not_told_counts_as_none_of_one() {
    let mut some = stats();
    assert_eq!(some.memory_usage(), (5, 50));
    some.memory = Some(MemoryStats { usage: None, limit: None });
    assert_eq!(some.memory_usage(), (0, 1));
    some.memory = None;
    assert_eq!(some.memory_usage(), (0, 1));
}

#[test]
fn a_round_asks_about_one_container_after_the_other() {
    let listed = vec![container("1", &["/a"]), container("2", &["/b"]), container("3", &["/c"])];
    let mut round = MonitorRound::start(Some(listed));
    assert!(round.ready());
    assert!(matches!(round.action(), RoundAction::FetchStats { id } if id == "1"));
    round.step(RoundEvent::Stats(Some(stats())));
    assert!(matches!(round.action(), RoundAction::Inspect { id } if id == "1"));
    round.step(RoundEvent::Inspected(Some(state(ContainerStatus::Running))));
    assert!(matches!(round.action(), RoundAction::FetchStats { id } if id == "2"));
    round.step(RoundEvent::Stats(None));
    assert!(matches!(round.action(), RoundAction::FetchStats { id } if id == "3"));
    round.step(RoundEvent::Stats(Some(ContainerStats { cpu: None, precpu: None, memory: None })));
    let silent = ContainerState { status: Some(ContainerStatus::Exited), health: None };
    round.step(RoundEvent::Inspected(Some(silent)));
    assert!(round.ready());
    assert!(matches!(round.action(), RoundAction::Publish));

    let mut monitor = monitor(false);
    assert!(monitor.get_metrics().is_empty());
    monitor.publish(round.finish());
    let known = monitor.get_metrics();
    assert_eq!(known.len(), 2);
    assert_eq!(known[0].id, "1");
    assert_eq!(known[0].name, "a");
    assert_eq!(known[0].status, ContainerStatus::Running);
    assert_eq!(known[0].health, HealthStatus::Healthy);
    assert_eq!(known[0].cpu, stats().cpu_counters());
    assert_eq!((known[0].mem_usage, known[0].mem_limit), (5, 50));
    assert_eq!(known[1].id, "3");
    assert_eq!(known[1].name, "c");
    assert_eq!(known[1].status, ContainerStatus::Exited);
    assert_eq!(known[1].health, HealthStatus::NoCheck);
    assert_eq!(known[1].cpu, None);
    assert_eq!((known[1].mem_usage, known[1].mem_limit), (0, 1));
}

#[test]
fn a_failed_list_empties_what_is_known() {
    let mut monitor = monitor(false);
    let mut round = MonitorRound::start(Some(vec![container("1", &["/a"])]));
    round.step(RoundEvent::Stats(Some(stats())));
    round.step(RoundEvent::Inspected(Some(state(ContainerStatus::Running))));
    monitor.publish(round.finish());
    assert_eq!(monitor.get_metrics().len(), 1);
    let round = MonitorRound::start(None);
    assert!(matches!(round.action(), RoundAction::Publish));
    monitor.publish(round.finish());
    assert!(monitor.get_metrics().is_empty());
}

#[test]
fn answers_that_do_not_fit_are_told_apart() {
    let nameless = MonitorRound::start(Some(vec![container("1", &[])]));
    assert!(!nameless.ready());
    assert!(!nameless.takes(&RoundEvent::Stats(None)));

    let mut round = MonitorRound::start(Some(vec![container("1", &["/a"])]));
    assert!(round.takes(&RoundEvent::Stats(None)));
    assert!(round.takes(&RoundEvent::Stats(Some(stats()))));
    assert!(!round.takes(&RoundEvent::Inspected(Some(state(ContainerStatus::Dead)))));
    let mut broken = stats();
    broken.cpu = Some(CpuSample { total_usage: None, system_cpu_usage: None, online_cpus: None });
    assert!(!round.takes(&RoundEvent::Stats(Some(broken))));
    round.step(RoundEvent::Stats(Some(stats())));
    assert!(!round.takes(&RoundEvent::Stats(None)));
    assert!(!round.takes(&RoundEvent::Inspected(None)));
    let unknown = ContainerState { status: None, health: None };
    assert!(!round.takes(&RoundEvent::Inspected(Some(unknown))));
    let unsure = ContainerState { status: Some(ContainerStatus::Dead), health: Some(None) };
    assert!(!round.takes(&RoundEvent::Inspected(Some(unsure))));
    assert!(round.takes(&RoundEvent::Inspected(Some(state(ContainerStatus::Dead)))));
}
