//! Which configuration is in force.

use crate::config::{
    application_views, load_step, spelled_ids, watched, Application, Check, Config, ConfigView,
    LoadAction, LoadEvent, RawApplication, RawCheck, RawConfig, Visibility, WatchEvent,
};
use crate::laws::checks::reads;
use crate::text::spelled;
use vstd::prelude::*;

verus! {

/// Two optional lists of strings say the same.
pub open spec fn same_texts(a: Option<Vec<String>>, b: Option<Vec<String>>) -> bool {
    match (a, b) {
        (Some(a), Some(b)) => a@.len() == b@.len() && forall|i: int|
            0 <= i < a@.len() ==> (#[trigger] a@[i])@ == b@[i]@,
        (None, None) => true,
        _ => false,
    }
}

/// A check that was written is completed: what it says is kept, its type and its address in any
/// case. Left out, the interval is half a minute. In an `expect` section the status is 200 and
/// the exit code 0 where they are left out, and without the section both are 0.
pub proof fn law_check_section(raw: RawCheck, check: Check)
    requires
        check@ == raw.completed(),
    ensures
        check.check_type == raw.check_type,
        check.url@ == raw.url@,
        raw.interval matches Some(interval) ==> check.interval@ == interval@,
        raw.interval is None ==> check.interval@ == "30s"@,
        raw.expect is None ==> check.expect.status_code == 0 && check.expect.exit_code == 0,
        raw.expect matches Some(expect) ==> {
            &&& expect.status_code matches Some(code) ==> check.expect.status_code == code
            &&& expect.status_code is None ==> check.expect.status_code == 200
            &&& expect.exit_code matches Some(code) ==> check.expect.exit_code == code
            &&& expect.exit_code is None ==> check.expect.exit_code == 0
        },
{
}

/// An application that was written is completed: what it says is kept, and it is public where it
/// does not say.
pub proof fn law_application_section(raw: RawApplication, app: Application)
    requires
        app@ == raw.completed(),
    ensures
        app.id.0@ == raw.id.0@,
        app.name is Some <==> raw.name is Some,
        raw.name matches Some(name) ==> reads(app.name, name@),
        raw.visibility matches Some(visibility) ==> app.visibility == visibility,
        raw.visibility is None ==> app.visibility == Visibility::Public,
        app.required_tags is Some <==> raw.required_tags is Some,
        raw.required_tags matches Some(tags) ==> {
            &&& app.required_tags->0@.len() == tags@.len()
            &&& forall|i: int|
                0 <= i < tags@.len() ==> (#[trigger] app.required_tags->0@[i]).0@ == tags@[i].0@
        },
        app.check@ == raw.check.completed(),
{
    if let Some(tags) = raw.required_tags {
        let kept = app.required_tags->0;
        assert(spelled_ids(kept@) == spelled_ids(tags@));
        assert(spelled_ids(kept@).len() == kept@.len());
        assert forall|i: int| 0 <= i < tags@.len() implies (#[trigger] kept@[i]).0@
            == tags@[i].0@ by {
            assert(spelled_ids(kept@)[i] == kept@[i]@);
            assert(spelled_ids(tags@)[i] == tags@[i]@);
        }
    }
}

/// A configuration has all that was written: the agent, the applications in their order, and the
/// other sections. Left out, the number of days is 3. In a `docker` section there is no filter
/// and the standard path where they are left out, and without the section there is no filter and
/// no path.
pub open spec fn has_all(config: Config, raw: RawConfig) -> bool {
    &&& config.agent.id.0@ == raw.agent.id.0@
    &&& config.agent.master_url@ == raw.agent.master_url@
    &&& config.agent.auth_key@ == raw.agent.auth_key@
    &&& same_texts(config.agent.tags, raw.agent.tags)
    &&& raw.docker is None ==> !config.docker.enable_label_filter
        && config.docker.socket_path@.len() == 0
    &&& raw.docker matches Some(docker) ==> {
        &&& config.docker.enable_label_filter <==> docker.enable_label_filter == Some(true)
        &&& docker.socket_path matches Some(path) ==> config.docker.socket_path@ == path@
        &&& docker.socket_path is None ==> config.docker.socket_path@ == "/var/run/docker.sock"@
    }
    &&& raw.tls_warn_days matches Some(days) ==> config.tls_warn_days == days
    &&& raw.tls_warn_days is None ==> config.tls_warn_days == 3
    &&& config.applications@.len() == raw.applications@.len()
    &&& forall|i: int|
        0 <= i < raw.applications@.len() ==> (#[trigger] config.applications@[i])@
            == raw.applications@[i].completed()
}

proof fn lemma_has_all(config: Config, raw: RawConfig)
    requires
        config@ == raw.completed(),
    ensures
        has_all(config, raw),
{
    let apps = config.applications@;
    assert(application_views(apps) == raw.completed().applications);
    assert(application_views(apps).len() == apps.len());
    assert forall|i: int| 0 <= i < raw.applications@.len() implies (#[trigger] apps[i])@
        == raw.applications@[i].completed() by {
        assert(application_views(apps)[i] == apps[i]@);
    }
    if let Some(tags) = raw.agent.tags {
        let kept = config.agent.tags->0;
        assert(spelled(kept@) == spelled(tags@));
        assert(spelled(kept@).len() == kept@.len());
        assert forall|i: int| 0 <= i < kept@.len() implies (#[trigger] kept@[i])@ == tags@[i]@ by {
            assert(spelled(kept@)[i] == kept@[i]@);
            assert(spelled(tags@)[i] == tags@[i]@);
        }
    }
}

/// After a reload that could be read, the configuration in force has all that was written, and
/// nothing of the one before: whatever was in force, the outcome is the same, and it is the one
/// that a start with the same file leads to.
pub proof fn law_reload(
    before: ConfigView,
    other: ConfigView,
    raw: RawConfig,
    after: Config,
    start: LoadAction,
)
    requires
        after@ == watched(before, WatchEvent::Reloaded(raw)),
        start@ == load_step(LoadEvent::Parsed(raw)),
    ensures
        has_all(after, raw),
        watched(other, WatchEvent::Reloaded(raw)) == after@,
        start matches LoadAction::Use(config) && config@ == after@ && has_all(config, raw),
{
    lemma_has_all(after, raw);
    lemma_has_all(start->Use_0, raw);
}

/// A reload that failed changes nothing: what was in force before stays in force in all parts.
pub proof fn law_failed_reload(before: Config, event: WatchEvent, after: Config)
    requires
        !(event is Reloaded),
        after@ == watched(before@, event),
    ensures
        after@ == before@,
        after.tls_warn_days == before.tls_warn_days,
        after.docker.enable_label_filter == before.docker.enable_label_filter,
        after.docker.socket_path@ == before.docker.socket_path@,
        after.agent.id.0@ == before.agent.id.0@,
        after.applications@.len() == before.applications@.len(),
        forall|i: int|
            0 <= i < before.applications@.len() ==> (#[trigger] after.applications@[i])@
                == before.applications@[i]@,
{
    let a = after.applications@;
    let b = before.applications@;
    assert(application_views(a) == application_views(b));
    assert(application_views(a).len() == a.len());
    assert(application_views(b).len() == b.len());
    assert forall|i: int| 0 <= i < b.len() implies (#[trigger] a[i])@ == b[i]@ by {
        assert(application_views(a)[i] == a[i]@);
        assert(application_views(b)[i] == b[i]@);
    }
}

/// Loading makes a file that is missing, reads one that is there or was made, and ends the
/// process with exit code 1 on any failure.
pub proof fn law_load(event: LoadEvent, action: LoadAction)
    requires
        action@ == load_step(event),
    ensures
        action is Create <==> event is Missing,
        action is Parse <==> event is Exists || event is Created,
        action is Use <==> event is Parsed,
        action is Exit <==> event is ExistenceUnknown || event is CreateFailed
            || event is ParseFailed,
        action matches LoadAction::Exit(code) ==> code == 1,
{
}

/// What stands for an application in the contracts has all of its parts, and the name by which it
/// is shown is its own, or its identifier where it has none.
pub proof fn law_application_parts(a: Application, b: Application)
    requires
        a@ == b@,
    ensures
        a.id.0@ == b.id.0@,
        a.name is Some <==> b.name is Some,
        a.name is Some ==> a.name->0@ == b.name->0@,
        a.visibility == b.visibility,
        a.required_tags is Some <==> b.required_tags is Some,
        a.check.check_type == b.check.check_type,
        a.check.url@ == b.check.url@,
        a.check.interval@ == b.check.interval@,
        a.check.expect == b.check.expect,
        a@.shown_name() == (match a.name {
            Some(name) => name@,
            None => a.id.0@,
        }),
{
}

} // verus!
