//! What the worker is configured to do, and what stands for the keys that a configuration
//! file leaves out.

use crate::text::spelled;
use vstd::prelude::*;

verus! {

/// What an optional string spells.
pub open spec fn spelled_option(s: Option<String>) -> Option<Seq<char>> {
    match s {
        Some(s) => Some(s@),
        None => None,
    }
}

/// A copy of an optional string.
pub fn copy_option(s: &Option<String>) -> (r: Option<String>)
    ensures
        r == *s,
{
    match s {
        Some(s) => Some(s.clone()),
        None => None,
    }
}

/// An identifier of an agent, of an application or of a tag.
#[derive(Debug, Hash, Eq, PartialEq)]
pub struct Id(pub String);

impl View for Id {
    type V = Seq<char>;

    open spec fn view(&self) -> Seq<char> {
        self.0@
    }
}

impl Clone for Id {
    fn clone(&self) -> (r: Self)
        ensures
            r == *self,
    {
        Id(self.0.clone())
    }
}

impl Id {
    /// The identifier as it is shown.
    pub fn to_string(&self) -> (s: String)
        ensures
            s@ == self@,
    {
        self.0.clone()
    }

    /// Tells whether two identifiers are the same.
    pub fn same(&self, other: &Id) -> (b: bool)
        ensures
            b == (self@ == other@),
    {
        self.0 == other.0
    }
}

/// What a list of identifiers spells.
pub open spec fn spelled_ids(v: Seq<Id>) -> Seq<Seq<char>> {
    Seq::new(v.len(), |i: int| v[i]@)
}

/// A copy of a list of identifiers.
fn copy_ids(v: &Vec<Id>) -> (r: Vec<Id>)
    ensures
        r@ == v@,
{
    let mut r: Vec<Id> = Vec::new();
    for i in 0..v.len()
        invariant
            r@ == v@.take(i as int),
    {
        r.push(v[i].clone());
    }
    r
}

/// The agent that this worker is.
pub struct Agent {
    pub id: Id,
    pub master_url: String,
    pub auth_key: String,
    pub tags: Option<Vec<String>>,
}

pub struct AgentView {
    pub id: Seq<char>,
    pub master_url: Seq<char>,
    pub auth_key: Seq<char>,
    pub tags: Option<Seq<Seq<char>>>,
}

impl View for Agent {
    type V = AgentView;

    open spec fn view(&self) -> AgentView {
        AgentView {
            id: self.id@,
            master_url: self.master_url@,
            auth_key: self.auth_key@,
            tags: match self.tags {
                Some(tags) => Some(spelled(tags@)),
                None => None,
            },
        }
    }
}

/// Without a word on it, containers are listed whatever their labels.
pub fn default_enable_label_filter() -> (enabled: bool)
    ensures
        !enabled,
{
    false
}

/// The path of the Docker socket where a `docker` section names none.
pub open spec fn standard_socket_path() -> Seq<char> {
    "/var/run/docker.sock"@
}

/// The path of the Docker socket where a `docker` section names none.
pub fn default_socket_path() -> (path: String)
    ensures
        path@ == standard_socket_path(),
{
    "/var/run/docker.sock".to_owned()
}

/// How to reach Docker, and which containers to watch.
pub struct Docker {
    pub enable_label_filter: bool,
    pub socket_path: String,
}

pub struct DockerView {
    pub enable_label_filter: bool,
    pub socket_path: Seq<char>,
}

impl View for Docker {
    type V = DockerView;

    open spec fn view(&self) -> DockerView {
        DockerView {
            enable_label_filter: self.enable_label_filter,
            socket_path: self.socket_path@,
        }
    }
}

impl DockerView {
    /// What stands for a whole `docker` section that is left out: no filter, and an empty
    /// socket path.
    pub open spec fn absent() -> DockerView {
        DockerView { enable_label_filter: false, socket_path: seq![] }
    }
}

impl Default for Docker {
    fn default() -> (r: Self)
        ensures
            r@ == DockerView::absent(),
    {
        Docker { enable_label_filter: false, socket_path: String::new() }
    }
}

/// Who may see an application.
#[derive(Debug, Clone, Copy, PartialEq, Eq, Structural)]
pub enum Visibility {
    Public,
    Protected,
    Private,
}

/// How an application is checked.
#[derive(Debug, Clone, Copy, PartialEq, Eq, Structural)]
pub enum CheckType {
    Tcp,
    Http,
    Exec,
}

/// The HTTP status that a check expects where its `expect` section names none.
pub fn default_status_code() -> (code: u16)
    ensures
        code == 200,
{
    200u16
}

/// The exit code that a check expects where its `expect` section names none.
pub fn default_exit_code() -> (code: i32)
    ensures
        code == 0,
{
    0i32
}

/// The answers by which a check tells that an application is available.
#[derive(Debug, Clone, Copy, PartialEq, Eq, Structural)]
pub struct ExpectValue {
    pub status_code: u16,
    pub exit_code: i32,
}

impl ExpectValue {
    /// What stands for a whole `expect` section that is left out: zero for both codes.
    pub open spec fn absent() -> ExpectValue {
        ExpectValue { status_code: 0, exit_code: 0 }
    }
}

impl Default for ExpectValue {
    fn default() -> (r: Self)
        ensures
            r == ExpectValue::absent(),
    {
        ExpectValue { status_code: 0, exit_code: 0 }
    }
}

/// How often a check is made where it does not say.
pub open spec fn standard_interval() -> Seq<char> {
    "30s"@
}

/// How often a check is made where it does not say.
pub fn default_interval() -> (interval: String)
    ensures
        interval@ == standard_interval(),
{
    "30s".to_owned()
}

/// A check of an application.
#[derive(Debug)]
pub struct Check {
    pub check_type: CheckType,
    pub url: String,
    pub interval: String,
    pub expect: ExpectValue,
}

pub struct CheckView {
    pub check_type: CheckType,
    pub url: Seq<char>,
    pub interval: Seq<char>,
    pub expect: ExpectValue,
}

impl View for Check {
    type V = CheckView;

    open spec fn view(&self) -> CheckView {
        CheckView {
            check_type: self.check_type,
            url: self.url@,
            interval: self.interval@,
            expect: self.expect,
        }
    }
}

impl Clone for Check {
    fn clone(&self) -> (r: Self)
        ensures
            r == *self,
    {
        Check {
            check_type: self.check_type,
            url: self.url.clone(),
            interval: self.interval.clone(),
            expect: self.expect,
        }
    }
}

/// An application is public where it does not say.
pub fn default_visibility() -> (visibility: Visibility)
    ensures
        visibility == Visibility::Public,
{
    Visibility::Public
}

/// An application that the worker checks.
pub struct Application {
    pub id: Id,
    pub name: Option<String>,
    pub visibility: Visibility,
    pub required_tags: Option<Vec<Id>>,
    pub check: Check,
}

pub struct ApplicationView {
    pub id: Seq<char>,
    pub name: Option<Seq<char>>,
    pub visibility: Visibility,
    pub required_tags: Option<Seq<Seq<char>>>,
    pub check: CheckView,
}

impl ApplicationView {
    /// The name by which an application is shown: its own, or else its identifier.
    pub open spec fn shown_name(self) -> Seq<char> {
        match self.name {
            Some(name) => name,
            None => self.id,
        }
    }
}

impl View for Application {
    type V = ApplicationView;

    open spec fn view(&self) -> ApplicationView {
        ApplicationView {
            id: self.id@,
            name: spelled_option(self.name),
            visibility: self.visibility,
            required_tags: match self.required_tags {
                Some(tags) => Some(spelled_ids(tags@)),
                None => None,
            },
            check: self.check@,
        }
    }
}

impl Clone for Application {
    fn clone(&self) -> (r: Self)
        ensures
            r@ == self@,
    {
        let required_tags = match &self.required_tags {
            Some(tags) => Some(copy_ids(tags)),
            None => None,
        };
        Application {
            id: self.id.clone(),
            name: copy_option(&self.name),
            visibility: self.visibility,
            required_tags,
            check: self.check.clone(),
        }
    }
}

impl Application {
    /// The name by which the application is shown.
    pub fn name(&self) -> (name: String)
        ensures
            name@ == self@.shown_name(),
    {
        match &self.name {
            Some(name) => name.clone(),
            None => self.id.0.clone(),
        }
    }
}

/// What a list of applications says.
pub open spec fn application_views(v: Seq<Application>) -> Seq<ApplicationView> {
    Seq::new(v.len(), |i: int| v[i]@)
}

/// A copy of a list of applications.
pub fn copy_applications(v: &Vec<Application>) -> (r: Vec<Application>)
    ensures
        application_views(r@) == application_views(v@),
{
    let mut r: Vec<Application> = Vec::new();
    for i in 0..v.len()
        invariant
            application_views(r@) == application_views(v@).take(i as int),
    {
        let ghost copied = r@;
        r.push(v[i].clone());
        assert(application_views(r@) =~= application_views(copied).push(v@[i as int]@));
    }
    assert(application_views(v@).take(v@.len() as int) =~= application_views(v@));
    r
}

/// Where nothing is said, a certificate is warned of when fewer than so many days remain.
pub fn default_tls_warn_days() -> (days: i64)
    ensures
        days == 3,
{
    3i64
}

/// The configuration of a worker.
pub struct Config {
    pub agent: Agent,
    pub docker: Docker,
    pub tls_warn_days: i64,
    pub applications: Vec<Application>,
}

pub struct ConfigView {
    pub agent: AgentView,
    pub docker: DockerView,
    pub tls_warn_days: i64,
    pub applications: Seq<ApplicationView>,
}

impl View for Config {
    type V = ConfigView;

    open spec fn view(&self) -> ConfigView {
        ConfigView {
            agent: self.agent@,
            docker: self.docker@,
            tls_warn_days: self.tls_warn_days,
            applications: application_views(self.applications@),
        }
    }
}

/// A `docker` section as it was written: `None` for a key that is not there.
pub struct RawDocker {
    pub enable_label_filter: Option<bool>,
    pub socket_path: Option<String>,
}

impl RawDocker {
    /// A key left out of a `docker` section: no filter, the standard socket path.
    pub open spec fn completed(self) -> DockerView {
        DockerView {
            enable_label_filter: match self.enable_label_filter {
                Some(enabled) => enabled,
                None => false,
            },
            socket_path: match self.socket_path {
                Some(path) => path@,
                None => standard_socket_path(),
            },
        }
    }

    /// Fills in the keys that were left out.
    pub fn complete(self) -> (r: Docker)
        ensures
            r@ == self.completed(),
    {
        Docker {
            enable_label_filter: match self.enable_label_filter {
                Some(enabled) => enabled,
                None => default_enable_label_filter(),
            },
            socket_path: match self.socket_path {
                Some(path) => path,
                None => default_socket_path(),
            },
        }
    }
}

/// An `expect` section as it was written: `None` for a key that is not there.
pub struct RawExpect {
    pub status_code: Option<u16>,
    pub exit_code: Option<i32>,
}

impl RawExpect {
    /// A key left out of an `expect` section: status 200, exit code 0.
    pub open spec fn completed(self) -> ExpectValue {
        ExpectValue {
            status_code: match self.status_code {
                Some(code) => code,
                None => 200,
            },
            exit_code: match self.exit_code {
                Some(code) => code,
                None => 0,
            },
        }
    }

    /// Fills in the keys that were left out.
    pub fn complete(self) -> (r: ExpectValue)
        ensures
            r == self.completed(),
    {
        ExpectValue {
            status_code: match self.status_code {
                Some(code) => code,
                None => default_status_code(),
            },
            exit_code: match self.exit_code {
                Some(code) => code,
                None => default_exit_code(),
            },
        }
    }
}

/// A `check` section as it was written: `None` for a key that is not there.
pub struct RawCheck {
    pub check_type: CheckType,
    pub url: String,
    pub interval: Option<String>,
    pub expect: Option<RawExpect>,
}

impl RawCheck {
    pub open spec fn completed(self) -> CheckView {
        CheckView {
            check_type: self.check_type,
            url: self.url@,
            interval: match self.interval {
                Some(interval) => interval@,
                None => standard_interval(),
            },
            expect: match self.expect {
                Some(expect) => expect.completed(),
                None => ExpectValue::absent(),
            },
        }
    }

    /// Fills in the keys that were left out.
    pub fn complete(self) -> (r: Check)
        ensures
            r@ == self.completed(),
    {
        Check {
            check_type: self.check_type,
            url: self.url,
            interval: match self.interval {
                Some(interval) => interval,
                None => default_interval(),
            },
            expect: match self.expect {
                Some(expect) => expect.complete(),
                None => ExpectValue::default(),
            },
        }
    }
}

/// An application as it was written: `None` for a key that is not there.
pub struct RawApplication {
    pub id: Id,
    pub name: Option<String>,
    pub visibility: Option<Visibility>,
    pub required_tags: Option<Vec<Id>>,
    pub check: RawCheck,
}

impl RawApplication {
    pub open spec fn completed(self) -> ApplicationView {
        ApplicationView {
            id: self.id@,
            name: spelled_option(self.name),
            visibility: match self.visibility {
                Some(visibility) => visibility,
                None => Visibility::Public,
            },
            required_tags: match self.required_tags {
                Some(tags) => Some(spelled_ids(tags@)),
                None => None,
            },
            check: self.check.completed(),
        }
    }

    /// Fills in the keys that were left out.
    pub fn complete(self) -> (r: Application)
        ensures
            r@ == self.completed(),
    {
        Application {
            id: self.id,
            name: self.name,
            visibility: match self.visibility {
                Some(visibility) => visibility,
                None => default_visibility(),
            },
            required_tags: self.required_tags,
            check: self.check.complete(),
        }
    }
}

/// A configuration as it was written: `None` for a key that is not there.
pub struct RawConfig {
    pub agent: Agent,
    pub docker: Option<RawDocker>,
    pub tls_warn_days: Option<i64>,
    pub applications: Vec<RawApplication>,
}

impl RawConfig {
    pub open spec fn completed(self) -> ConfigView {
        ConfigView {
            agent: self.agent@,
            docker: match self.docker {
                Some(docker) => docker.completed(),
                None => DockerView::absent(),
            },
            tls_warn_days: match self.tls_warn_days {
                Some(days) => days,
                None => 3,
            },
            applications: Seq::new(
                self.applications@.len(),
                |i: int| self.applications@[i].completed(),
            ),
        }
    }

    /// Fills in the keys that were left out.
    pub fn complete(self) -> (r: Config)
        ensures
            r@ == self.completed(),
    {
        let mut applications: Vec<Application> = Vec::new();
        let ghost written = self.applications@;
        for application in it: self.applications.into_iter()
            invariant
                it.seq() == written,
                applications@.len() == it.index(),
                forall|i: int|
                    0 <= i < it.index() ==> #[trigger] applications@[i]@ == written[i].completed(),
        {
            applications.push(application.complete());
        }
        let r = Config {
            agent: self.agent,
            docker: match self.docker {
                Some(docker) => docker.complete(),
                None => Docker::default(),
            },
            tls_warn_days: match self.tls_warn_days {
                Some(days) => days,
                None => default_tls_warn_days(),
            },
            applications,
        };
        assert(r@.applications =~= self.completed().applications);
        r
    }
}

/// What came of the last thing that was done to load the configuration.
pub enum LoadEvent {
    /// It is not known whether the file exists.
    ExistenceUnknown,
    /// The file is there.
    Exists,
    /// The file is not there.
    Missing,
    /// An empty file was made.
    Created,
    /// No file could be made.
    CreateFailed,
    /// The file was read and holds a configuration.
    Parsed(RawConfig),
    /// The file could not be read as a configuration.
    ParseFailed,
}

/// What to do next to load the configuration.
pub enum LoadAction {
    /// Make an empty file.
    Create,
    /// Read the file.
    Parse,
    /// Start with this configuration.
    Use(Config),
    /// End the process with this exit code.
    Exit(i32),
}

pub enum LoadActionView {
    Create,
    Parse,
    Use(ConfigView),
    Exit(i32),
}

impl View for LoadAction {
    type V = LoadActionView;

    open spec fn view(&self) -> LoadActionView {
        match *self {
            LoadAction::Create => LoadActionView::Create,
            LoadAction::Parse => LoadActionView::Parse,
            LoadAction::Use(config) => LoadActionView::Use(config@),
            LoadAction::Exit(code) => LoadActionView::Exit(code),
        }
    }
}

/// What to do after `event` to load the configuration.
pub open spec fn load_step(event: LoadEvent) -> LoadActionView {
    match event {
        LoadEvent::Exists | LoadEvent::Created => LoadActionView::Parse,
        LoadEvent::Missing => LoadActionView::Create,
        LoadEvent::Parsed(raw) => LoadActionView::Use(raw.completed()),
        LoadEvent::ExistenceUnknown | LoadEvent::CreateFailed | LoadEvent::ParseFailed => {
            LoadActionView::Exit(1)
        },
    }
}

/// The next step of loading the configuration at the start: a missing file is made, the file
/// is read, and whatever fails ends the process.
pub fn load_config(event: LoadEvent) -> (action: LoadAction)
    ensures
        match event {
            LoadEvent::Exists | LoadEvent::Created => action is Parse,
            LoadEvent::Missing => action is Create,
            LoadEvent::Parsed(raw) => action matches LoadAction::Use(config) && config@
                == raw.completed(),
            LoadEvent::ExistenceUnknown | LoadEvent::CreateFailed | LoadEvent::ParseFailed => action
                == LoadAction::Exit(1),
        },
        action@ == load_step(event),
{
    match event {
        LoadEvent::Exists | LoadEvent::Created => LoadAction::Parse,
        LoadEvent::Missing => LoadAction::Create,
        LoadEvent::Parsed(raw) => LoadAction::Use(raw.complete()),
        LoadEvent::ExistenceUnknown | LoadEvent::CreateFailed | LoadEvent::ParseFailed => {
            LoadAction::Exit(1)
        },
    }
}

/// What the watch on the configuration file reported.
pub enum WatchEvent {
    /// The file changed and holds a configuration.
    Reloaded(RawConfig),
    /// The file changed and could not be read as a configuration.
    ReloadFailed,
    /// The watch itself failed.
    WatchFailed,
}

/// The configuration that is in force after `event`: the new one, or, after any failure, the
/// one from before.
pub open spec fn watched(config: ConfigView, event: WatchEvent) -> ConfigView {
    match event {
        WatchEvent::Reloaded(raw) => raw.completed(),
        WatchEvent::ReloadFailed | WatchEvent::WatchFailed => config,
    }
}

/// Takes up a report of the watch on the configuration file. Tells whether the configuration
/// was replaced.
pub fn watch_config(config: &mut Config, event: WatchEvent) -> (replaced: bool)
    ensures
        final(config)@ == watched(old(config)@, event),
        replaced == (event is Reloaded),
        !replaced ==> *final(config) == *old(config),
{
    match event {
        WatchEvent::Reloaded(raw) => {
            *config = raw.complete();
            true
        },
        WatchEvent::ReloadFailed | WatchEvent::WatchFailed => false,
    }
}

/// The configuration that is in force after a number of reports.
pub open spec fn watched_all(config: ConfigView, events: Seq<WatchEvent>) -> ConfigView
    decreases events.len(),
{
    if events.len() == 0 {
        config
    } else {
        watched(watched_all(config, events.drop_last()), events.last())
    }
}

/// The configuration in force is the last one that could be read: after a reload nothing but
/// another one replaces it, and without any the first one stays.
pub proof fn law_last_reload_counts(config: ConfigView, events: Seq<WatchEvent>, n: int)
    requires
        0 <= n <= events.len(),
        forall|i: int| n <= i < events.len() ==> !(#[trigger] events[i] is Reloaded),
    ensures
        watched_all(config, events) == (if n == 0 {
            config
        } else {
            watched(watched_all(config, events.take(n - 1)), events[n - 1])
        }),
    decreases events.len(),
{
    if n < events.len() {
        assert(!(events[events.len() - 1] is Reloaded));
        let earlier = events.drop_last();
        assert forall|i: int| n <= i < earlier.len() implies !(#[trigger] earlier[i] is
            Reloaded) by {
            assert(earlier[i] == events[i]);
        }
        law_last_reload_counts(config, earlier, n);
        if n > 0 {
            assert(earlier.take(n - 1) =~= events.take(n - 1));
        }
    } else if n > 0 {
        assert(events.drop_last() =~= events.take(n - 1));
    }
}

} // verus!
