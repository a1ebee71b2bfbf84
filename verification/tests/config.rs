use worker::config::{
    default_enable_label_filter, default_exit_code, default_interval, default_socket_path,
    default_status_code, default_tls_warn_days, default_visibility, load_config, watch_config,
    Agent, Application, Check, CheckType, Config, Docker, ExpectValue, Id, LoadAction, LoadEvent,
    RawApplication, RawCheck, RawConfig, RawDocker, RawExpect, Visibility, WatchEvent,
};

fn raw_check(interval: Option<&str>, expect: Option<RawExpect>) -> RawCheck {
    RawCheck {
        check_type: CheckType::Http,
        url: "http://localhost".to_string(),
        interval: interval.map(|s| s.to_string()),
        expect,
    }
}

fn raw_application(id: &str, check: RawCheck) -> RawApplication {
    RawApplication {
        id: Id(id.to_string()),
        name: None,
        visibility: None,
        required_tags: None,
        check,
    }
}

fn agent(id: &str) -> Agent {
    Agent {
        id: Id(id.to_string()),
        master_url: "http://master".to_string(),
        auth_key: "key".to_string(),
        tags: Some(vec!["a".to_string()]),
    }
}

fn raw_config(id: &str) -> RawConfig {
    RawConfig {
        agent: agent(id),
        docker: None,
        tls_warn_days: None,
        applications: vec![
            raw_application("one", raw_check(None, None)),
            raw_application("two", raw_check(Some("5s"), None)),
        ],
    }
}

#[test]
fn defaults_are_as_documented() {
    assert!(!default_enable_label_filter());
    assert_eq!(default_socket_path(), "/var/run/docker.sock");
    assert_eq!(default_status_code(), 200);
    assert_eq!(default_exit_code(), 0);
    assert_eq!(default_interval(), "30s");
    assert_eq!(default_visibility(), Visibility::Public);
    assert_eq!(default_tls_warn_days(), 3);
}

#[test]
fn a_section_left_out_differs_from_an_empty_one() {
    let absent = raw_check(None, None).complete();
    assert_eq!(absent.expect, ExpectValue { status_code: 0, exit_code: 0 });
    assert_eq!(absent.expect, ExpectValue::default());
    let empty = raw_check(None, Some(RawExpect { status_code: None, exit_code: None })).complete();
    assert_eq!(empty.expect, ExpectValue { status_code: 200, exit_code: 0 });
    let given =
        raw_check(None, Some(RawExpect { status_code: Some(204), exit_code: Some(7) })).complete();
    assert_eq!(given.expect, ExpectValue { status_code: 204, exit_code: 7 });

    let docker = Docker::default();
    assert!(!docker.enable_label_filter);
    assert_eq!(docker.socket_path, "");
    let docker = RawDocker { enable_label_filter: None, socket_path: None }.complete();
    assert!(!docker.enable_label_filter);
    assert_eq!(docker.socket_path, "/var/run/docker.sock");
    let docker =
        RawDocker { enable_label_filter: Some(true), socket_path: Some("/x".to_string()) }.complete();
    assert!(docker.enable_label_filter);
    assert_eq!(docker.socket_path, "/x");
}

#[test]
fn a_configuration_is_completed() {
    let mut raw = raw_config("w1");
    raw.applications[1].visibility = Some(Visibility::Private);
    raw.applications[1].name = Some("Second".to_string());
    raw.applications[1].required_tags = Some(vec![Id("t".to_string())]);
    let config = raw.complete();
    assert_eq!(config.agent.id.to_string(), "w1");
    assert_eq!(config.agent.tags, Some(vec!["a".to_string()]));
    assert_eq!(config.docker.socket_path, "");
    assert_eq!(config.tls_warn_days, 3);
    assert_eq!(config.applications.len(), 2);
    assert_eq!(config.applications[0].check.interval, "30s");
    assert_eq!(config.applications[0].visibility, Visibility::Public);
    assert_eq!(config.applications[0].name(), "one");
    assert_eq!(config.applications[1].check.interval, "5s");
    assert_eq!(config.applications[1].visibility, Visibility::Private);
    assert_eq!(config.applications[1].name(), "Second");
    assert_eq!(config.applications[1].required_tags, Some(vec![Id("t".to_string())]));

    let mut raw = raw_config("w2");
    raw.docker = Some(RawDocker { enable_label_filter: Some(true), socket_path: None });
    raw.tls_warn_days = Some(14);
    let config = raw.complete();
    assert!(config.docker.enable_label_filter);
    assert_eq!(config.docker.socket_path, "/var/run/docker.sock");
    assert_eq!(config.tls_warn_days, 14);
}

#[test]
fn an_application_is_shown_by_its_name_or_its_id() {
    let mut app = Application {
        id: Id("api".to_string()),
        name: None,
        visibility: Visibility::Protected,
        required_tags: Some(vec![Id("x".to_string()), Id("y".to_string())]),
        check: Check {
            check_type: CheckType::Tcp,
            url: "localhost:1".to_string(),
            interval: "1s".to_string(),
            expect: ExpectValue { status_code: 1, exit_code: 2 },
        },
    };
    assert_eq!(app.name(), "api");
    app.name = Some("".to_string());
    assert_eq!(app.name(), "");
    app.name = Some("API".to_string());
    let copy = app.clone();
    assert_eq!(copy.name(), "API");
    assert_eq!(copy.id, app.id);
    assert_eq!(copy.visibility, app.visibility);
    assert_eq!(copy.required_tags, app.required_tags);
    assert_eq!(copy.check.check_type, CheckType::Tcp);
    assert_eq!(copy.check.url, "localhost:1");
    assert_eq!(copy.check.interval, "1s");
    assert_eq!(copy.check.expect, app.check.expect);
    assert!(app.id.same(&Id("api".to_string())));
    assert!(!app.id.same(&Id("API".to_string())));
}

#[test]
fn loading_makes_a_missing_file_and_ends_on_any_failure() {
    assert!(matches!(load_config(LoadEvent::Exists), LoadAction::Parse));
    assert!(matches!(load_config(LoadEvent::Missing), LoadAction::Create));
    assert!(matches!(load_config(LoadEvent::Created), LoadAction::Parse));
    assert!(matches!(load_config(LoadEvent::ExistenceUnknown), LoadAction::Exit(1)));
    assert!(matches!(load_config(LoadEvent::CreateFailed), LoadAction::Exit(1)));
    assert!(matches!(load_config(LoadEvent::ParseFailed), LoadAction::Exit(1)));
    match load_config(LoadEvent::Parsed(raw_config("w"))) {
        LoadAction::Use(config) => assert_eq!(config.applications.len(), 2),
        _ => panic!("the configuration is used"),
    }
}

#[test]
fn only_a_reload_replaces_the_configuration() {
    let mut config: Config = raw_config("first").complete();
    assert!(!watch_config(&mut config, WatchEvent::ReloadFailed));
    assert_eq!(config.agent.id.to_string(), "first");
    assert!(!watch_config(&mut config, WatchEvent::WatchFailed));
    assert_eq!(config.agent.id.to_string(), "first");
    assert!(watch_config(&mut config, WatchEvent::Reloaded(raw_config("second"))));
    assert_eq!(config.agent.id.to_string(), "second");
    assert!(!watch_config(&mut config, WatchEvent::ReloadFailed));
    assert_eq!(config.agent.id.to_string(), "second");
}
