use worker::config::{
    Agent, Application, Check, CheckType, Config, Docker, ExpectValue, Id, Visibility,
};
use worker::health_check::{
    initial_applications, HealthCheckManager, HealthCheckResult, IntervalState,
};

const SECOND: u128 = 1_000_000_000;

fn app(id: &str, interval: &str) -> Application {
    Application {
        id: Id(id.to_string()),
        name: None,
        visibility: Visibility::Public,
        required_tags: None,
        check: Check {
            check_type: CheckType::Http,
            url: "http://x".to_string(),
            interval: interval.to_string(),
            expect: ExpectValue { status_code: 200, exit_code: 0 },
        },
    }
}

fn config(applications: Vec<Application>) -> Config {
    Config {
        agent: Agent {
            id: Id("w".to_string()),
            master_url: String::new(),
            auth_key: String::new(),
            tags: None,
        },
        docker: Docker::default(),
        tls_warn_days: 3,
        applications,
    }
}

fn found(id: &str, status: u16) -> HealthCheckResult {
    HealthCheckResult {
        id: Id(id.to_string()),
        app_name: id.to_string(),
        is_available: status == 200,
        status_code: Some(status),
        error: None,
        cert_warning: None,
    }
}

fn due(manager: &mut HealthCheckManager, config: &Config) -> Vec<String> {
    manager.scheduler_tick(config).iter().map(|a| a.id.to_string()).collect()
}

fn ticks_due(interval: &str, ticks: u32) -> Vec<u32> {
    let config = config(vec![app("a", interval)]);
    let mut manager = HealthCheckManager::new(&config);
    let mut at = Vec::new();
    for tick in 1..=ticks {
        if !due(&mut manager, &config).is_empty() {
            at.push(tick);
        }
    }
    at
}

#[test]
fn an_interval_runs_down_and_begins_anew() {
    let mut interval = IntervalState::new(2 * SECOND + 1);
    assert_eq!(interval.current(), 2 * SECOND + 1);
    interval.decrease();
    assert_eq!(interval.current(), SECOND + 1);
    interval.decrease();
    assert_eq!(interval.current(), 1);
    interval.decrease();
    assert_eq!(interval.current(), 0);
    interval.decrease();
    assert_eq!(interval.current(), 0);
    interval.reset();
    assert_eq!(interval.current(), 2 * SECOND + 1);
    assert!(!interval.tick());
    assert!(!interval.tick());
    assert!(interval.tick());
    assert_eq!(interval.current(), 2 * SECOND + 1);
}

#[test]
fn checks_are_due_once_in_each_period() {
    assert_eq!(ticks_due("3s", 10), vec![3, 6, 9]);
    assert_eq!(ticks_due("1s", 4), vec![1, 2, 3, 4]);
    assert_eq!(ticks_due("0s", 3), vec![1, 2, 3]);
    assert_eq!(ticks_due("500ms", 3), vec![1, 2, 3]);
    assert_eq!(ticks_due("1500ms", 6), vec![2, 4, 6]);
    assert_eq!(ticks_due("2s 1ns", 7), vec![3, 6]);
    assert_eq!(ticks_due("1min", 130), vec![60, 120]);
    assert_eq!(ticks_due("30s", 61), vec![30, 60]);
}

#[test]
fn an_interval_that_cannot_be_read_is_left_out() {
    assert!(ticks_due("soon", 50).is_empty());
    assert!(ticks_due("", 50).is_empty());
    assert!(ticks_due("30", 50).is_empty());
    let config = config(vec![app("a", "soon"), app("b", "1s")]);
    let mut manager = HealthCheckManager::new(&config);
    assert!(!manager.record(Some(found("a", 200))));
    assert!(manager.record(Some(found("b", 200))));
    assert_eq!(due(&mut manager, &config), vec!["b"]);
}

#[test]
fn the_last_application_of_an_id_sets_its_interval() {
    let first = config(vec![app("a", "1s"), app("b", "2s"), app("a", "3s"), app("a", "?")]);
    let mut manager = HealthCheckManager::new(&first);
    assert!(due(&mut manager, &first).is_empty());
    assert_eq!(due(&mut manager, &first), vec!["b"]);
    assert_eq!(due(&mut manager, &first), vec!["a", "a", "a"]);
}

#[test]
fn a_reload_changes_what_is_checked_but_not_when() {
    let before = config(vec![app("a", "2s"), app("b", "2s")]);
    let after = config(vec![app("c", "1s"), app("b", "9s")]);
    let mut manager = HealthCheckManager::new(&before);
    assert!(due(&mut manager, &before).is_empty());
    assert_eq!(due(&mut manager, &after), vec!["b"]);
    assert!(due(&mut manager, &after).is_empty());
    assert_eq!(due(&mut manager, &before), vec!["a", "b"]);
    assert!(!manager.record(Some(found("c", 200))));
}

#[test]
fn results_are_kept_for_the_applications_in_the_table() {
    let config = config(vec![app("a", "1s"), app("b", "1s"), app("c", "1s")]);
    let mut manager = HealthCheckManager::new(&config);
    assert!(manager.get_health_check_results().is_empty());
    assert!(manager.record(Some(found("c", 500))));
    assert!(manager.record(Some(found("a", 200))));
    assert!(!manager.record(Some(found("z", 200))));
    assert!(!manager.record(None));
    let known: Vec<(String, Option<u16>)> = manager
        .get_health_check_results()
        .iter()
        .map(|r| (r.id.to_string(), r.status_code))
        .collect();
    assert_eq!(known, vec![("a".to_string(), Some(200)), ("c".to_string(), Some(500))]);
    manager.scheduler_tick(&config);
    assert!(manager.record(Some(found("c", 204))));
    let known: Vec<(String, Option<u16>)> = manager
        .get_health_check_results()
        .iter()
        .map(|r| (r.id.to_string(), r.status_code))
        .collect();
    assert_eq!(known, vec![("a".to_string(), Some(200)), ("c".to_string(), Some(204))]);
}

#[test]
fn known_applications_differ_and_stay_known() {
    let config = config(vec![app("a", "1s"), app("b", "soon"), app("a", "2s"), app("c", "1s")]);
    let mut manager = HealthCheckManager::new(&config);
    let known = |manager: &HealthCheckManager| -> Vec<String> {
        manager.get_health_check_results().iter().map(|r| r.id.to_string()).collect()
    };
    manager.record(Some(found("a", 200)));
    manager.record(Some(found("b", 200)));
    assert_eq!(known(&manager), vec!["a"]);
    manager.scheduler_tick(&config);
    manager.record(Some(found("a", 500)));
    manager.record(None);
    assert_eq!(known(&manager), vec!["a"]);
    manager.record(Some(found("c", 200)));
    manager.scheduler_tick(&config);
    assert_eq!(known(&manager), vec!["a", "c"]);
}

#[test]
fn an_application_is_registered_with_its_interval() {
    let none = config(vec![]);
    let mut manager = HealthCheckManager::new(&none);
    let both = config(vec![app("a", ""), app("b", "")]);
    manager.register(&Id("a".to_string()), Some(SECOND));
    manager.register(&Id("b".to_string()), None);
    assert_eq!(due(&mut manager, &both), vec!["a"]);
    manager.record(Some(found("a", 200)));
    manager.register(&Id("a".to_string()), Some(2 * SECOND));
    assert!(manager.get_health_check_results().is_empty());
    assert!(due(&mut manager, &both).is_empty());
    assert_eq!(due(&mut manager, &both), vec!["a"]);
}

#[test]
fn all_applications_are_checked_at_the_start() {
    let config = config(vec![app("a", "soon"), app("b", "1s"), app("b", "1s")]);
    let apps: Vec<String> = initial_applications(&config).iter().map(|a| a.name()).collect();
    assert_eq!(apps, vec!["a", "b", "b"]);
}

#[test]
fn an_interval_beyond_the_range_is_left_out() {
    assert!(ticks_due("584542046091years", 5).is_empty());
    let config = config(vec![app("a", "99999999999999years"), app("b", "584542046090years")]);
    let mut manager = HealthCheckManager::new(&config);
    assert!(!manager.record(Some(found("a", 200))));
    assert!(manager.record(Some(found("b", 200))));
}
