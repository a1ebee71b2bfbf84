//! Health checks of the applications: which are due, what each one does, and what is known of
//! each application.

pub mod check;
pub mod laws;

use crate::config::{
    application_views, copy_applications, copy_option, spelled_ids, spelled_option, Application,
    ApplicationView, Config, Id,
};
use crate::interval::{read_interval, readable_interval};
use vstd::prelude::*;

verus! {

/// What a check of an application found.
#[derive(Debug)]
pub struct HealthCheckResult {
    pub id: Id,
    pub app_name: String,
    pub is_available: bool,
    pub status_code: Option<u16>,
    pub error: Option<String>,
    pub cert_warning: Option<String>,
}

pub struct HealthCheckResultView {
    pub id: Seq<char>,
    pub app_name: Seq<char>,
    pub is_available: bool,
    pub status_code: Option<u16>,
    pub error: Option<Seq<char>>,
    pub cert_warning: Option<Seq<char>>,
}

impl View for HealthCheckResult {
    type V = HealthCheckResultView;

    open spec fn view(&self) -> HealthCheckResultView {
        HealthCheckResultView {
            id: self.id@,
            app_name: self.app_name@,
            is_available: self.is_available,
            status_code: self.status_code,
            error: spelled_option(self.error),
            cert_warning: spelled_option(self.cert_warning),
        }
    }
}

impl Clone for HealthCheckResult {
    fn clone(&self) -> (r: Self)
        ensures
            r == *self,
    {
        HealthCheckResult {
            id: self.id.clone(),
            app_name: self.app_name.clone(),
            is_available: self.is_available,
            status_code: self.status_code,
            error: copy_option(&self.error),
            cert_warning: copy_option(&self.cert_warning),
        }
    }
}

/// The time between two ticks of the scheduler, in nanoseconds.
pub const TICK_NANOS: u128 = 1_000_000_000;

/// The time until a check is due again, and the time between two checks, in nanoseconds.
#[derive(Debug, Clone, Copy)]
pub struct IntervalState {
    pub current: u128,
    pub base: u128,
}

impl IntervalState {
    /// An interval that has just begun.
    pub open spec fn fresh(base: u128) -> IntervalState {
        IntervalState { current: base, base }
    }

    /// The interval one tick later, and no earlier than its end.
    pub open spec fn decreased(self) -> IntervalState {
        IntervalState {
            current: if self.current < TICK_NANOS {
                0
            } else {
                (self.current - TICK_NANOS) as u128
            },
            base: self.base,
        }
    }

    /// The interval ends with the next tick.
    pub open spec fn is_due(self) -> bool {
        self.decreased().current == 0
    }

    /// The interval after the next tick: it begins anew when it ends.
    pub open spec fn ticked(self) -> IntervalState {
        if self.is_due() {
            IntervalState::fresh(self.base)
        } else {
            self.decreased()
        }
    }

    /// An interval of `base` nanoseconds, just begun.
    pub fn new(base: u128) -> (r: Self)
        ensures
            r == IntervalState::fresh(base),
    {
        IntervalState { current: base, base }
    }

    /// Takes a tick off the time that is left, down to zero.
    pub fn decrease(&mut self)
        ensures
            *final(self) == old(self).decreased(),
    {
        self.current = if self.current < TICK_NANOS {
            0
        } else {
            self.current - TICK_NANOS
        };
    }

    /// Begins the interval anew.
    pub fn reset(&mut self)
        ensures
            *final(self) == IntervalState::fresh(old(self).base),
    {
        self.current = self.base;
    }

    /// The time that is left.
    pub fn current(&self) -> (nanos: u128)
        ensures
            nanos == self.current,
    {
        self.current
    }

    /// Lets a tick pass. Tells whether the interval ended, and if so begins it anew.
    pub fn tick(&mut self) -> (due: bool)
        ensures
            *final(self) == old(self).ticked(),
            due == old(self).is_due(),
    {
        self.decrease();
        if self.current() == 0 {
            self.reset();
            true
        } else {
            false
        }
    }
}

/// What is known of an application: when it is checked, and what its last check found.
pub struct Row {
    pub id: Id,
    pub interval: IntervalState,
    pub result: Option<HealthCheckResult>,
}

pub struct RowView {
    pub id: Seq<char>,
    pub interval: IntervalState,
    pub result: Option<HealthCheckResultView>,
}

impl View for Row {
    type V = RowView;

    open spec fn view(&self) -> RowView {
        RowView {
            id: self.id@,
            interval: self.interval,
            result: match self.result {
                Some(result) => Some(result@),
                None => None,
            },
        }
    }
}

impl RowView {
    /// The row of an application that has not been checked yet.
    pub open spec fn fresh(id: Seq<char>, base: u128) -> RowView {
        RowView { id, interval: IntervalState::fresh(base), result: None }
    }

    pub open spec fn ticked(self) -> RowView {
        RowView { interval: self.interval.ticked(), ..self }
    }

    pub open spec fn with_result(self, result: HealthCheckResultView) -> RowView {
        RowView { result: Some(result), ..self }
    }
}

/// What a list of rows says.
pub open spec fn row_views(v: Seq<Row>) -> Seq<RowView> {
    Seq::new(v.len(), |i: int| v[i]@)
}

/// The first row of `id`; the number of rows where there is none.
pub open spec fn row_index(rows: Seq<RowView>, id: Seq<char>) -> int
    decreases rows.len(),
{
    if rows.len() == 0 || rows[0].id == id {
        0
    } else {
        1 + row_index(rows.drop_first(), id)
    }
}

/// `row_index` is the one index up to which `id` has no row and at which it has one, or the
/// rows end.
pub proof fn lemma_row_index(rows: Seq<RowView>, id: Seq<char>, p: int)
    requires
        0 <= p <= rows.len(),
        forall|i: int| 0 <= i < p ==> (#[trigger] rows[i]).id != id,
        p < rows.len() ==> rows[p].id == id,
    ensures
        row_index(rows, id) == p,
    decreases rows.len(),
{
    if rows.len() > 0 && rows[0].id != id {
        let rest = rows.drop_first();
        assert forall|i: int| 0 <= i < p - 1 implies (#[trigger] rest[i]).id != id by {
            assert(rest[i] == rows[i + 1]);
        }
        lemma_row_index(rest, id, p - 1);
    }
}

/// What `row_index` says of the rows.
pub proof fn lemma_row_index_holds(rows: Seq<RowView>, id: Seq<char>)
    ensures
        0 <= row_index(rows, id) <= rows.len(),
        forall|i: int| 0 <= i < row_index(rows, id) ==> (#[trigger] rows[i]).id != id,
        row_index(rows, id) < rows.len() ==> rows[row_index(rows, id)].id == id,
    decreases rows.len(),
{
    if rows.len() > 0 && rows[0].id != id {
        let rest = rows.drop_first();
        lemma_row_index_holds(rest, id);
        assert forall|i: int| 0 <= i < row_index(rows, id) implies (#[trigger] rows[i]).id
            != id by {
            if i > 0 {
                assert(rows[i] == rest[i - 1]);
            }
        }
    }
}

/// No two rows are of the same application.
pub open spec fn distinct_rows(rows: Seq<RowView>) -> bool {
    forall|i: int, j: int| 0 <= i < j < rows.len() ==> #[trigger] rows[i].id != #[trigger] rows[j].id
}

/// The rows after an application is entered with its interval. Without an interval it is not
/// entered; with one, it takes the place of an earlier application of the same identifier.
pub open spec fn registered(rows: Seq<RowView>, id: Seq<char>, interval: Option<u128>) -> Seq<
    RowView,
> {
    match interval {
        Some(base) => if row_index(rows, id) < rows.len() {
            rows.update(row_index(rows, id), RowView::fresh(id, base))
        } else {
            rows.push(RowView::fresh(id, base))
        },
        None => rows,
    }
}

/// The rows that a worker starts with.
pub open spec fn initial_rows(apps: Seq<ApplicationView>) -> Seq<RowView>
    decreases apps.len(),
{
    if apps.len() == 0 {
        seq![]
    } else {
        registered(
            initial_rows(apps.drop_last()),
            apps.last().id,
            readable_interval(apps.last().check.interval),
        )
    }
}

/// The rows after a tick.
pub open spec fn ticked_rows(rows: Seq<RowView>) -> Seq<RowView> {
    Seq::new(rows.len(), |i: int| rows[i].ticked())
}

/// The applications that the next tick finds due, in the order of their rows.
pub open spec fn due_ids(rows: Seq<RowView>) -> Seq<Seq<char>>
    decreases rows.len(),
{
    if rows.len() == 0 {
        seq![]
    } else if rows.last().interval.is_due() {
        due_ids(rows.drop_last()).push(rows.last().id)
    } else {
        due_ids(rows.drop_last())
    }
}

/// The next tick finds the application `id` due.
pub open spec fn id_is_due(rows: Seq<RowView>, id: Seq<char>) -> bool {
    exists|i: int| 0 <= i < rows.len() && (#[trigger] rows[i]).id == id && rows[i].interval.is_due()
}

/// The applications of a configuration that the next tick finds due, in the order of the
/// configuration.
pub open spec fn due_applications(rows: Seq<RowView>, apps: Seq<ApplicationView>) -> Seq<
    ApplicationView,
> {
    apps.filter(|app: ApplicationView| id_is_due(rows, app.id))
}

/// The rows after `result` is entered: it replaces what was known of its application, and is
/// dropped where that has no row.
pub open spec fn recorded(rows: Seq<RowView>, result: HealthCheckResultView) -> Seq<RowView> {
    let i = row_index(rows, result.id);
    if i < rows.len() {
        rows.update(i, rows[i].with_result(result))
    } else {
        rows
    }
}

/// The results that are known, in the order of the rows.
pub open spec fn known_results(rows: Seq<RowView>) -> Seq<HealthCheckResultView>
    decreases rows.len(),
{
    if rows.len() == 0 {
        seq![]
    } else {
        match rows.last().result {
            Some(result) => known_results(rows.drop_last()).push(result),
            None => known_results(rows.drop_last()),
        }
    }
}

/// The status of the applications that are checked, each with its row.
pub struct HealthCheckManager {
    table: Vec<Row>,
}

impl View for HealthCheckManager {
    type V = Seq<RowView>;

    closed spec fn view(&self) -> Seq<RowView> {
        row_views(self.table@)
    }
}

impl HealthCheckManager {
    /// No application has two rows.
    pub open spec fn wf(&self) -> bool {
        distinct_rows(self@)
    }

    fn find(&self, id: &Id) -> (p: usize)
        ensures
            p == row_index(self@, id@),
            p <= self@.len(),
    {
        let mut p: usize = 0;
        while p < self.table.len() && !self.table[p].id.same(id)
            invariant
                p <= self.table@.len(),
                forall|i: int| 0 <= i < p ==> (#[trigger] self@[i]).id != id@,
            decreases self.table@.len() - p,
        {
            p += 1;
        }
        proof {
            lemma_row_index(self@, id@, p as int);
        }
        p
    }

    /// Enters an application with its interval in nanoseconds; `None` for one whose interval
    /// cannot be read, which is left out.
    pub fn register(&mut self, id: &Id, interval: Option<u128>)
        requires
            old(self).wf(),
        ensures
            final(self).wf(),
            final(self)@ == registered(old(self)@, id@, interval),
    {
        if let Some(base) = interval {
            let p = self.find(id);
            let ghost before = self@;
            proof {
                lemma_row_index_holds(before, id@);
            }
            let row = Row { id: id.clone(), interval: IntervalState::new(base), result: None };
            if p < self.table.len() {
                self.table.set(p, row);
                assert(self@ =~= before.update(p as int, RowView::fresh(id@, base)));
            } else {
                self.table.push(row);
                assert(self@ =~= before.push(RowView::fresh(id@, base)));
            }
        }
    }

    /// The status of the applications as a worker starts: one row for each application whose
    /// interval can be read, and no result yet.
    pub fn new(config: &Config) -> (manager: Self)
        ensures
            manager.wf(),
            manager@ == initial_rows(config@.applications),
    {
        let mut manager = HealthCheckManager { table: Vec::new() };
        let ghost apps = config@.applications;
        assert(manager@ =~= seq![]);
        assert(apps.take(0) =~= seq![]);
        for i in 0..config.applications.len()
            invariant
                apps == config@.applications,
                manager.wf(),
                manager@ == initial_rows(apps.take(i as int)),
        {
            let app = &config.applications[i];
            assert(apps[i as int] == app@);
            assert(apps.take(i + 1).drop_last() =~= apps.take(i as int));
            let interval = read_interval(app.check.interval.as_str());
            manager.register(&app.id, interval);
        }
        assert(apps.take(apps.len() as int) =~= apps);
        manager
    }

    /// Lets a tick pass for every application, and gives those that are due.
    fn tick(&mut self) -> (due: Vec<Id>)
        ensures
            final(self)@ == ticked_rows(old(self)@),
            spelled_ids(due@) == due_ids(old(self)@),
    {
        let mut due: Vec<Id> = Vec::new();
        let ghost rows = self@;
        assert(spelled_ids(due@) =~= seq![]);
        assert(rows.take(0) =~= seq![]);
        let count = self.table.len();
        for i in 0..count
            invariant
                rows.len() == self.table@.len(),
                count == rows.len(),
                forall|j: int| 0 <= j < i ==> #[trigger] self.table@[j]@ == rows[j].ticked(),
                forall|j: int| i <= j < rows.len() ==> #[trigger] self.table@[j]@ == rows[j],
                spelled_ids(due@) == due_ids(rows.take(i as int)),
        {
            assert(self.table@[i as int]@ == rows[i as int]);
            assert(rows.take(i + 1).drop_last() =~= rows.take(i as int));
            let ghost found = spelled_ids(due@);
            if self.table[i].interval.tick() {
                due.push(self.table[i].id.clone());
                assert(spelled_ids(due@) =~= found.push(rows[i as int].id));
            }
        }
        assert(rows.take(rows.len() as int) =~= rows);
        assert(self@ =~= ticked_rows(rows));
        due
    }

    /// Lets a tick of the scheduler pass, and gives the applications to check now: those of
    /// the configuration that are due.
    pub fn scheduler_tick(&mut self, config: &Config) -> (apps: Vec<Application>)
        requires
            old(self).wf(),
        ensures
            final(self).wf(),
            final(self)@ == ticked_rows(old(self)@),
            application_views(apps@) == config@.applications.filter(
                |app: ApplicationView| id_is_due(old(self)@, app.id),
            ),
            application_views(apps@) == due_applications(old(self)@, config@.applications),
    {
        let ghost rows = self@;
        let due = self.tick();
        let apps = select_applications(config, &due);
        proof {
            let by_ids = |app: ApplicationView| spelled_ids(due@).contains(app.id);
            let by_rows = |app: ApplicationView| id_is_due(rows, app.id);
            assert forall|app: ApplicationView| #[trigger] by_ids(app) == by_rows(app) by {
                lemma_due_ids(rows, app.id);
            }
            assert(by_ids =~= by_rows);
            assert(distinct_rows(ticked_rows(rows)));
        }
        apps
    }

    /// What is known of the applications.
    pub fn get_health_check_results(&self) -> (results: Vec<HealthCheckResult>)
        ensures
            result_views(results@) == known_results(self@),
    {
        let mut results: Vec<HealthCheckResult> = Vec::new();
        let ghost rows = self@;
        assert(result_views(results@) =~= seq![]);
        assert(rows.take(0) =~= seq![]);
        for i in 0..self.table.len()
            invariant
                rows == self@,
                result_views(results@) == known_results(rows.take(i as int)),
        {
            assert(self.table@[i as int]@ == rows[i as int]);
            assert(rows.take(i + 1).drop_last() =~= rows.take(i as int));
            let ghost found = result_views(results@);
            if let Some(result) = &self.table[i].result {
                results.push(result.clone());
                assert(result_views(results@) =~= found.push(result@));
            }
        }
        assert(rows.take(rows.len() as int) =~= rows);
        results
    }

    /// Takes up the end of a check: its result, or `None` where it came to no end. Tells
    /// whether the result was entered.
    pub fn record(&mut self, finished: Option<HealthCheckResult>) -> (entered: bool)
        requires
            old(self).wf(),
        ensures
            final(self).wf(),
            final(self)@ == (match finished {
                Some(result) => recorded(old(self)@, result@),
                None => old(self)@,
            }),
            entered == (finished matches Some(result) && row_index(old(self)@, result@.id) < old(
                self,
            )@.len()),
    {
        match finished {
            Some(result) => {
                let p = self.find(&result.id);
                let ghost rows = self@;
                proof {
                    lemma_row_index_holds(rows, result@.id);
                }
                if p < self.table.len() {
                    assert(self.table@[p as int]@ == rows[p as int]);
                    let ghost entry = result@;
                    self.table[p].result = Some(result);
                    assert(self@ =~= rows.update(p as int, rows[p as int].with_result(entry)));
                    true
                } else {
                    false
                }
            },
            None => false,
        }
    }
}

/// What a list of results says.
pub open spec fn result_views(v: Seq<HealthCheckResult>) -> Seq<HealthCheckResultView> {
    Seq::new(v.len(), |i: int| v[i]@)
}

/// The applications of a configuration whose identifiers are among `ids`.
fn select_applications(config: &Config, ids: &Vec<Id>) -> (apps: Vec<Application>)
    ensures
        application_views(apps@) == config@.applications.filter(
            |app: ApplicationView| spelled_ids(ids@).contains(app.id),
        ),
{
    let mut apps: Vec<Application> = Vec::new();
    let ghost all = config@.applications;
    let ghost wanted = |app: ApplicationView| spelled_ids(ids@).contains(app.id);
    proof {
        reveal(Seq::filter);
        assert(application_views(apps@) =~= all.take(0).filter(wanted));
    }
    for i in 0..config.applications.len()
        invariant
            all == config@.applications,
            wanted == (|app: ApplicationView| spelled_ids(ids@).contains(app.id)),
            application_views(apps@) == all.take(i as int).filter(wanted),
    {
        let app = &config.applications[i];
        proof {
            reveal(Seq::filter);
            assert(all[i as int] == app@);
            assert(all.take(i + 1).drop_last() =~= all.take(i as int));
        }
        let ghost found = application_views(apps@);
        if holds_id(ids, &app.id) {
            apps.push(app.clone());
            assert(application_views(apps@) =~= found.push(app@));
        }
    }
    assert(all.take(all.len() as int) =~= all);
    apps
}

/// Tells whether `id` is among `ids`.
fn holds_id(ids: &Vec<Id>, id: &Id) -> (b: bool)
    ensures
        b == spelled_ids(ids@).contains(id@),
{
    for i in 0..ids.len()
        invariant
            forall|j: int| 0 <= j < i ==> spelled_ids(ids@)[j] != id@,
    {
        if ids[i].same(id) {
            assert(spelled_ids(ids@)[i as int] == id@);
            return true;
        }
    }
    false
}

/// The applications that are checked as a worker starts, before the first tick: all of them.
pub fn initial_applications(config: &Config) -> (apps: Vec<Application>)
    ensures
        application_views(apps@) == config@.applications,
{
    copy_applications(&config.applications)
}

/// An application is among those due if one of its rows is.
proof fn lemma_due_ids(rows: Seq<RowView>, id: Seq<char>)
    ensures
        due_ids(rows).contains(id) == id_is_due(rows, id),
    decreases rows.len(),
{
    if rows.len() > 0 {
        let rest = rows.drop_last();
        lemma_due_ids(rest, id);
        let last = rows.last();
        if due_ids(rows).contains(id) {
            let k = choose|k: int| 0 <= k < due_ids(rows).len() && due_ids(rows)[k] == id;
            if k < due_ids(rest).len() {
                assert(due_ids(rest)[k] == id);
                let i = choose|i: int|
                    0 <= i < rest.len() && (#[trigger] rest[i]).id == id
                        && rest[i].interval.is_due();
                assert(rows[i] == rest[i]);
            } else {
                assert(rows[rows.len() - 1] == last);
            }
        }
        if id_is_due(rows, id) {
            let i = choose|i: int|
                0 <= i < rows.len() && (#[trigger] rows[i]).id == id && rows[i].interval.is_due();
            if i < rest.len() {
                assert(rest[i] == rows[i]);
                let k = choose|k: int| 0 <= k < due_ids(rest).len() && due_ids(rest)[k] == id;
                assert(due_ids(rows)[k] == id);
            } else {
                assert(due_ids(rows)[due_ids(rest).len() as int] == id);
            }
        }
    }
}

} // verus!
