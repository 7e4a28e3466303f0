//! What the states and jobs of the service manager's units call for.

use vstd::prelude::*;
use vstd::string::*;

use crate::course::{lemma_passed, lemma_passes, on_course};
use crate::fault::{conflict, conflict_of, fault, hand_on, invalid_data, invalid_of, Fault, FaultKind, FaultView};
use crate::files::{agrees, result_view};
use crate::observation::text_result;
use crate::order::views;
use crate::publications::option_fault;
use crate::text::{
    all_digits, begins, chars, copy, decimal, decimal_value, from, number_text, read_number, same,
    without_prefix,
};

verus! {

pub open spec fn operation_failed_of() -> FaultView {
    FaultView {
        kind: FaultKind::Other,
        message: "the native systemd manager operation failed"@,
    }
}

/// The failure under which the service manager's own failures are reported.
pub fn operation_failed() -> (r: Fault)
    ensures
        r@ == operation_failed_of(),
{
    fault(FaultKind::Other, "the native systemd manager operation failed")
}

pub open spec fn reactivated_of() -> FaultView {
    FaultView {
        kind: FaultKind::Other,
        message: "a systemd unit reactivated while it was being stopped"@,
    }
}

fn reactivated() -> (r: Fault)
    ensures
        r@ == reactivated_of(),
{
    fault(FaultKind::Other, "a systemd unit reactivated while it was being stopped")
}

// ---------------------------------------------------------------------------
// States
// ---------------------------------------------------------------------------

/// What the start of a unit calls for first.
#[derive(Debug, Clone, Copy, PartialEq, Eq, Structural)]
pub enum StartAction {
    Ready,
    ResetInactive,
    ResetFailed,
    Missing,
    Transitional,
}

pub open spec fn start_of(state: Seq<char>) -> StartAction {
    if state == "active"@ {
        StartAction::Ready
    } else if state == "inactive"@ {
        StartAction::ResetInactive
    } else if state == "failed"@ {
        StartAction::ResetFailed
    } else if state == "not_found"@ {
        StartAction::Missing
    } else {
        StartAction::Transitional
    }
}

/// What the start of a unit in a state calls for first.
pub fn start_action(state: &str) -> (r: StartAction)
    ensures
        r == start_of(state@),
{
    if same(state, "active") {
        StartAction::Ready
    } else if same(state, "inactive") {
        StartAction::ResetInactive
    } else if same(state, "failed") {
        StartAction::ResetFailed
    } else if same(state, "not_found") {
        StartAction::Missing
    } else {
        StartAction::Transitional
    }
}

/// What the stop of a unit calls for.
#[derive(Debug, Clone, Copy, PartialEq, Eq, Structural)]
pub enum StopAction {
    Settled,
    ResetFailed,
    Request,
}

pub open spec fn stop_of(state: Seq<char>) -> StopAction {
    if state == "inactive"@ || state == "not_found"@ {
        StopAction::Settled
    } else if state == "failed"@ {
        StopAction::ResetFailed
    } else {
        StopAction::Request
    }
}

/// What the stop of a unit in a state calls for.
pub fn stop_action(state: &str) -> (r: StopAction)
    ensures
        r == stop_of(state@),
{
    if same(state, "inactive") || same(state, "not_found") {
        StopAction::Settled
    } else if same(state, "failed") {
        StopAction::ResetFailed
    } else {
        StopAction::Request
    }
}

/// What has to be reset before a unit is started.
#[derive(Debug, Clone, Copy, PartialEq, Eq, Structural)]
pub enum StartPreparation {
    Nothing,
    /// The hidden limit on starts of an inactive unit.
    StartLimit,
    Failure,
}

pub open spec fn preparation_of(state: Seq<char>) -> Result<StartPreparation, FaultView> {
    match start_of(state) {
        StartAction::Ready => Ok(StartPreparation::Nothing),
        StartAction::ResetInactive => Ok(StartPreparation::StartLimit),
        StartAction::ResetFailed => Ok(StartPreparation::Failure),
        StartAction::Missing => Err(
            FaultView {
                kind: FaultKind::NotFound,
                message: "a required native systemd unit is not loaded"@,
            },
        ),
        StartAction::Transitional => Err(
            conflict_of("a required native systemd unit already has a transitional state"@),
        ),
    }
}

/// What has to be reset before a unit is started.
pub fn prepare_start(state: &str) -> (r: Result<StartPreparation, Fault>)
    ensures
        result_view(r) == preparation_of(state@),
{
    match start_action(state) {
        StartAction::Ready => Ok(StartPreparation::Nothing),
        StartAction::ResetInactive => Ok(StartPreparation::StartLimit),
        StartAction::ResetFailed => Ok(StartPreparation::Failure),
        StartAction::Missing => Err(
            fault(FaultKind::NotFound, "a required native systemd unit is not loaded"),
        ),
        StartAction::Transitional => Err(
            conflict("a required native systemd unit already has a transitional state"),
        ),
    }
}

// ---------------------------------------------------------------------------
// Jobs
// ---------------------------------------------------------------------------

/// A job of the service manager.
#[derive(Debug, PartialEq, Eq)]
pub struct JobIdentity {
    pub id: u32,
    pub path: String,
}

/// A job over plain values.
pub struct JobView {
    pub id: u32,
    pub path: Seq<char>,
}

impl View for JobIdentity {
    type V = JobView;

    open spec fn view(&self) -> JobView {
        JobView { id: self.id, path: self.path@ }
    }
}

pub open spec fn job_prefix() -> Seq<char> {
    "/org/freedesktop/systemd1/job/"@
}

/// The digits of a number that may have a plus sign in front.
pub open spec fn unsigned_digits(s: Seq<char>) -> Seq<char> {
    if s.len() > 0 && s[0] == '+' {
        from(s, 1)
    } else {
        s
    }
}

/// The number that a text writes, where it fits.
pub open spec fn unsigned_value(s: Seq<char>) -> Option<nat> {
    let d = unsigned_digits(s);
    if d.len() > 0 && all_digits(d) && decimal_value(d) <= 0xffff_ffff {
        Some(decimal_value(d))
    } else {
        None
    }
}

/// The job that an object path names.
pub open spec fn job_of(path: Seq<char>) -> Result<u32, FaultView> {
    if !begins(path, job_prefix()) {
        Err(invalid_of("invalid systemd job path"@))
    } else {
        let value = from(path, job_prefix().len() as int);
        match unsigned_value(value) {
            None => Err(invalid_of("invalid systemd job id"@)),
            Some(id) => if id == 0 || value != decimal(id) {
                Err(invalid_of("non-canonical systemd job identity"@))
            } else {
                Ok(id as u32)
            },
        }
    }
}

/// The job that an object path names: one canonical number, not zero.
pub fn parse_job_path(path: &str) -> (r: Result<u32, Fault>)
    ensures
        result_view(r) == job_of(path@),
{
    let value = match without_prefix(path, "/org/freedesktop/systemd1/job/") {
        None => {
            return Err(invalid_data("invalid systemd job path"));
        },
        Some(value) => value,
    };
    let v = chars(value.as_str());
    let start: usize = if v.len() > 0 && v[0] == '+' {
        1
    } else {
        0
    };
    proof {
        assert(v@.subrange(start as int, v@.len() as int) =~= unsigned_digits(value@));
    }
    match read_number(&v, start, v.len(), 0xffff_ffff) {
        None => Err(invalid_data("invalid systemd job id")),
        Some(id) => {
            if id == 0 || !same(value.as_str(), number_text(id).as_str()) {
                return Err(invalid_data("non-canonical systemd job identity"));
            }
            Ok(id as u32)
        },
    }
}

/// The job that a unit reports, where it has one.
pub open spec fn reported_job(id: u32, path: Seq<char>) -> Result<Option<JobView>, FaultView> {
    if id == 0 {
        Ok(None)
    } else {
        match job_of(path) {
            Err(e) => Err(e),
            Ok(named) => if named != id {
                Err(operation_failed_of())
            } else {
                Ok(Some(JobView { id, path }))
            },
        }
    }
}

pub open spec fn job_result(r: Result<Option<JobIdentity>, Fault>) -> Result<
    Option<JobView>,
    FaultView,
> {
    match r {
        Ok(Some(j)) => Ok(Some(j@)),
        Ok(None) => Ok(None),
        Err(e) => Err(e@),
    }
}

/// The job that a unit reports, where it has one.
pub fn unit_job(id: u32, path: String) -> (r: Result<Option<JobIdentity>, Fault>)
    ensures
        job_result(r) == reported_job(id, path@),
{
    if id == 0 {
        return Ok(None);
    }
    match parse_job_path(path.as_str()) {
        Err(e) => Err(e),
        Ok(named) => if named != id {
            Err(operation_failed())
        } else {
            Ok(Some(JobIdentity { id, path }))
        },
    }
}

/// The job that the service manager answered a start with.
pub fn started_job(path: String) -> (r: Result<JobIdentity, Fault>)
    ensures
        match r {
            Ok(j) => job_of(path@) == Ok::<u32, FaultView>(j.id) && j@.path == path@,
            Err(e) => job_of(path@) == Err::<u32, FaultView>(e@),
        },
{
    match parse_job_path(path.as_str()) {
        Err(e) => Err(e),
        Ok(id) => Ok(JobIdentity { id, path }),
    }
}

/// What the service manager says of a job.
#[derive(Debug)]
pub enum JobObservation {
    Found(String),
    Missing,
    Failed,
}

/// What is said of a job over plain values.
pub enum JobObservationView {
    Found(Seq<char>),
    Missing,
    Failed,
}

impl View for JobObservation {
    type V = JobObservationView;

    open spec fn view(&self) -> JobObservationView {
        match self {
            JobObservation::Found(p) => JobObservationView::Found(p@),
            JobObservation::Missing => JobObservationView::Missing,
            JobObservation::Failed => JobObservationView::Failed,
        }
    }
}

pub open spec fn pending(o: JobObservationView, expected: JobView) -> Result<bool, FaultView> {
    match o {
        JobObservationView::Found(path) => if path == expected.path {
            Ok(true)
        } else {
            Err(invalid_of("the native systemd job identity changed"@))
        },
        JobObservationView::Missing => Ok(false),
        JobObservationView::Failed => Err(operation_failed_of()),
    }
}

/// Whether a job is still pending.
pub fn job_pending(o: &JobObservation, expected: &JobIdentity) -> (r: Result<bool, Fault>)
    ensures
        result_view(r) == pending(o@, expected@),
{
    match o {
        JobObservation::Found(path) => if same(path.as_str(), expected.path.as_str()) {
            Ok(true)
        } else {
            Err(invalid_data("the native systemd job identity changed"))
        },
        JobObservation::Missing => Ok(false),
        JobObservation::Failed => Err(operation_failed()),
    }
}

/// Whether one of the first `n` jobs is pending, or the first failure.
pub open spec fn some_pending(o: Seq<JobObservationView>, jobs: Seq<JobView>, n: int) -> Result<
    bool,
    FaultView,
>
    decreases n,
{
    if n <= 0 {
        Ok(false)
    } else {
        match some_pending(o, jobs, n - 1) {
            Err(e) => Err(e),
            Ok(before) => match pending(o[n - 1], jobs[n - 1]) {
                Err(e) => Err(e),
                Ok(p) => Ok(before || p),
            },
        }
    }
}

proof fn lemma_some_pending(o: Seq<JobObservationView>, jobs: Seq<JobView>, n: int, m: int)
    requires
        0 <= n <= m,
        some_pending(o, jobs, n) is Err,
    ensures
        some_pending(o, jobs, m) == some_pending(o, jobs, n),
    decreases m - n,
{
    if n < m {
        lemma_some_pending(o, jobs, n, m - 1);
    }
}

/// Whether any job of a transaction is pending; there is one observation for each.
pub fn transaction_pending(observed: &Vec<JobObservation>, jobs: &Vec<JobIdentity>) -> (r: Result<
    bool,
    Fault,
>)
    requires
        observed@.len() == jobs@.len(),
    ensures
        result_view(r) == some_pending(views(observed@), views(jobs@), jobs@.len() as int),
{
    let ghost ov = views(observed@);
    let ghost jv = views(jobs@);
    let mut found = false;
    let mut i: usize = 0;
    while i < jobs.len()
        invariant
            i <= jobs@.len(),
            observed@.len() == jobs@.len(),
            ov == views(observed@),
            jv == views(jobs@),
            some_pending(ov, jv, i as int) == Ok::<bool, FaultView>(found),
        decreases jobs@.len() - i,
    {
        proof {
            assert(ov[i as int] == observed@[i as int]@);
            assert(jv[i as int] == jobs@[i as int]@);
        }
        match job_pending(&observed[i], &jobs[i]) {
            Err(e) => {
                proof {
                    lemma_some_pending(ov, jv, i as int + 1, jv.len() as int);
                }
                return Err(e);
            },
            Ok(p) => {
                found = found || p;
            },
        }
        i += 1;
    }
    Ok(found)
}

/// The job of a dependency, where it has one, or why that is not known.
#[derive(Debug)]
pub struct DependencyJob {
    pub result: Result<Option<JobIdentity>, Fault>,
}

impl View for DependencyJob {
    type V = Result<Option<JobView>, FaultView>;

    open spec fn view(&self) -> Result<Option<JobView>, FaultView> {
        job_result(self.result)
    }
}

pub open spec fn has_id(s: Seq<JobView>, id: u32) -> bool {
    exists|i: int| 0 <= i < s.len() && (#[trigger] s[i]).id == id
}

/// The jobs of a start and of the first `n` of its dependencies, each once.
pub open spec fn captured(
    root: JobView,
    dependencies: Seq<Result<Option<JobView>, FaultView>>,
    n: int,
) -> Result<Seq<JobView>, FaultView>
    decreases n,
{
    if n <= 0 {
        Ok(seq![root])
    } else {
        match captured(root, dependencies, n - 1) {
            Err(e) => Err(e),
            Ok(before) => match dependencies[n - 1] {
                Err(e) => Err(e),
                Ok(None) => Ok(before),
                Ok(Some(job)) => if has_id(before, job.id) {
                    Ok(before)
                } else {
                    Ok(before.push(job))
                },
            },
        }
    }
}

proof fn lemma_captured(
    root: JobView,
    dependencies: Seq<Result<Option<JobView>, FaultView>>,
    n: int,
    m: int,
)
    requires
        0 <= n <= m,
        captured(root, dependencies, n) is Err,
    ensures
        captured(root, dependencies, m) == captured(root, dependencies, n),
    decreases m - n,
{
    if n < m {
        lemma_captured(root, dependencies, n, m - 1);
    }
}

proof fn lemma_root_first(
    root: JobView,
    dependencies: Seq<Result<Option<JobView>, FaultView>>,
    n: int,
)
    ensures
        captured(root, dependencies, n) is Ok ==> {
            let s = captured(root, dependencies, n)->Ok_0;
            &&& s.len() > 0
            &&& s[0] == root
            &&& forall|i: int| 1 <= i < s.len() ==> (#[trigger] s[i]).id != root.id
        },
    decreases n,
{
    if n > 0 {
        lemma_root_first(root, dependencies, n - 1);
        if captured(root, dependencies, n) is Ok {
            let before = captured(root, dependencies, n - 1)->Ok_0;
            assert(before[0].id == root.id);
            assert(has_id(before, root.id));
        }
    }
}

fn contains_job(jobs: &Vec<JobIdentity>, id: u32) -> (r: bool)
    ensures
        r == has_id(views(jobs@), id),
{
    let ghost jv = views(jobs@);
    let mut i: usize = 0;
    while i < jobs.len()
        invariant
            i <= jobs@.len(),
            jv == views(jobs@),
            forall|k: int| 0 <= k < i ==> (#[trigger] jv[k]).id != id,
        decreases jobs@.len() - i,
    {
        proof {
            assert(jv[i as int] == jobs@[i as int]@);
        }
        if jobs[i].id == id {
            return true;
        }
        i += 1;
    }
    false
}

/// The jobs that a transaction waits for: those that were captured, without
/// that of the start itself where it is done already.
pub open spec fn awaited(
    root: JobView,
    dependencies: Seq<Result<Option<JobView>, FaultView>>,
    observed: JobObservationView,
) -> Result<Seq<JobView>, FaultView> {
    match captured(root, dependencies, dependencies.len() as int) {
        Err(e) => Err(e),
        Ok(jobs) => match pending(observed, root) {
            Err(e) => Err(e),
            Ok(true) => Ok(jobs),
            Ok(false) => Ok(jobs.subrange(1, jobs.len() as int)),
        },
    }
}

pub open spec fn jobs_result(r: Result<Vec<JobIdentity>, Fault>) -> Result<
    Seq<JobView>,
    FaultView,
> {
    match r {
        Ok(v) => Ok(views(v@)),
        Err(e) => Err(e@),
    }
}

/// The jobs that a transaction waits for.
pub fn capture_transaction(
    root: JobIdentity,
    dependencies: Vec<DependencyJob>,
    root_observed: &JobObservation,
) -> (r: Result<Vec<JobIdentity>, Fault>)
    ensures
        jobs_result(r) == awaited(root@, views(dependencies@), root_observed@),
{
    let ghost dv = views(dependencies@);
    let ghost rv = root@;
    let mut jobs: Vec<JobIdentity> = Vec::new();
    jobs.push(root);
    let mut i: usize = 0;
    proof {
        assert(views(jobs@) =~= seq![rv]);
    }
    while i < dependencies.len()
        invariant
            i <= dependencies@.len(),
            dv == views(dependencies@),
            rv == root@,
            captured(rv, dv, i as int) == Ok::<Seq<JobView>, FaultView>(views(jobs@)),
        decreases dependencies@.len() - i,
    {
        proof {
            assert(dv[i as int] == dependencies@[i as int]@);
        }
        match &dependencies[i].result {
            Err(e) => {
                proof {
                    lemma_captured(rv, dv, i as int + 1, dv.len() as int);
                }
                return Err(hand_on(e));
            },
            Ok(None) => {},
            Ok(Some(job)) => {
                if !contains_job(&jobs, job.id) {
                    let ghost before = views(jobs@);
                    let copied = JobIdentity { id: job.id, path: copy(job.path.as_str()) };
                    jobs.push(copied);
                    proof {
                        assert(views(jobs@) =~= before.push(job@));
                    }
                }
            },
        }
        i += 1;
    }
    proof {
        lemma_root_first(rv, dv, dv.len() as int);
        assert(jobs@[0]@ == views(jobs@)[0]);
        assert(views(jobs@).len() == jobs@.len());
    }
    match job_pending(root_observed, &jobs[0]) {
        Err(e) => Err(e),
        Ok(true) => Ok(jobs),
        Ok(false) => {
            let ghost all = views(jobs@);
            let done = jobs.remove(0);
            proof {
                assert(views(jobs@) =~= all.subrange(1, all.len() as int));
            }
            Ok(jobs)
        },
    }
}

// ---------------------------------------------------------------------------
// Transactions
// ---------------------------------------------------------------------------

/// What is known of a unit.
#[derive(Debug)]
pub struct UnitObservation {
    pub state: Result<String, Fault>,
    pub job: Result<Option<JobIdentity>, Fault>,
}

/// What is known of a unit over plain values.
pub struct UnitView {
    pub state: Result<Seq<char>, FaultView>,
    pub job: Result<Option<JobView>, FaultView>,
}

impl View for UnitObservation {
    type V = UnitView;

    open spec fn view(&self) -> UnitView {
        UnitView { state: text_result(self.state), job: job_result(self.job) }
    }
}

/// Why a unit is not active with no job pending.
pub open spec fn inactive_fault(u: UnitView) -> Option<FaultView> {
    let incomplete = conflict_of(
        "the native systemd start transaction completed without activating every required unit"@,
    );
    match u.state {
        Err(e) => Some(e),
        Ok(state) => if state != "active"@ {
            Some(incomplete)
        } else {
            match u.job {
                Err(e) => Some(e),
                Ok(Some(_)) => Some(incomplete),
                Ok(None) => None,
            }
        },
    }
}

/// The first of `n` units that is not active with no job pending.
pub open spec fn transaction_fault(s: Seq<UnitView>, n: int) -> Option<FaultView>
    decreases n,
{
    if n <= 0 {
        None
    } else {
        match transaction_fault(s, n - 1) {
            Some(e) => Some(e),
            None => inactive_fault(s[n - 1]),
        }
    }
}

proof fn lemma_transaction_fault(s: Seq<UnitView>, n: int, m: int)
    requires
        0 <= n <= m,
        transaction_fault(s, n) is Some,
    ensures
        transaction_fault(s, m) == transaction_fault(s, n),
    decreases m - n,
{
    if n < m {
        lemma_transaction_fault(s, n, m - 1);
    }
}

fn require_active(u: &UnitObservation) -> (r: Result<(), Fault>)
    ensures
        agrees(r, inactive_fault(u@)),
{
    match &u.state {
        Err(e) => Err(hand_on(e)),
        Ok(state) => {
            if !same(state.as_str(), "active") {
                return Err(
                    conflict(
                        "the native systemd start transaction completed without activating every required unit",
                    ),
                );
            }
            match &u.job {
                Err(e) => Err(hand_on(e)),
                Ok(Some(_)) => Err(
                    conflict(
                        "the native systemd start transaction completed without activating every required unit",
                    ),
                ),
                Ok(None) => Ok(()),
            }
        },
    }
}

/// A start is complete where every unit of it, the dependencies first, is active
/// with no job pending.
pub fn require_transaction_active(units: &Vec<UnitObservation>) -> (r: Result<(), Fault>)
    ensures
        agrees(r, transaction_fault(views(units@), units@.len() as int)),
{
    let ghost uv = views(units@);
    let mut i: usize = 0;
    while i < units.len()
        invariant
            i <= units@.len(),
            uv == views(units@),
            transaction_fault(uv, i as int) is None,
        decreases units@.len() - i,
    {
        proof {
            assert(uv[i as int] == units@[i as int]@);
        }
        if let Err(e) = require_active(&units[i]) {
            proof {
                lemma_transaction_fault(uv, i as int + 1, uv.len() as int);
            }
            return Err(e);
        }
        i += 1;
    }
    Ok(())
}

/// Whether a unit is at rest with no job pending.
pub open spec fn at_rest(u: UnitView) -> bool {
    u.state is Ok && stop_of(u.state->Ok_0) == StopAction::Settled && u.job == Ok::<
        Option<JobView>,
        FaultView,
    >(None)
}

/// Whether every unit of a transaction is at rest.
pub fn transaction_is_quiesced(units: &Vec<UnitObservation>) -> (r: bool)
    ensures
        r == (forall|i: int| 0 <= i < units@.len() ==> at_rest((#[trigger] units@[i])@)),
{
    let mut i: usize = 0;
    while i < units.len()
        invariant
            i <= units@.len(),
            forall|k: int| 0 <= k < i ==> at_rest((#[trigger] units@[k])@),
        decreases units@.len() - i,
    {
        let settled = match &units[i].state {
            Ok(state) => stop_action(state.as_str()) == StopAction::Settled,
            Err(_) => false,
        };
        let idle = match &units[i].job {
            Ok(None) => true,
            _ => false,
        };
        if !(settled && idle) {
            proof {
                assert(!at_rest(units@[i as int]@));
            }
            return false;
        }
        i += 1;
    }
    true
}

/// Whether an inactive unit stayed so while its start limit was reset.
pub open spec fn stayed_inactive_fault(u: UnitView) -> Option<FaultView> {
    match u.state {
        Err(e) => Some(e),
        Ok(state) => if state != "inactive"@ {
            Some(reactivated_of())
        } else {
            match u.job {
                Err(e) => Some(e),
                Ok(Some(_)) => Some(reactivated_of()),
                Ok(None) => None,
            }
        },
    }
}

/// Accepts an inactive unit that stayed so while its start limit was reset.
pub fn require_stayed_inactive(u: &UnitObservation) -> (r: Result<(), Fault>)
    ensures
        agrees(r, stayed_inactive_fault(u@)),
{
    match &u.state {
        Err(e) => Err(hand_on(e)),
        Ok(state) => {
            if !same(state.as_str(), "inactive") {
                return Err(reactivated());
            }
            match &u.job {
                Err(e) => Err(hand_on(e)),
                Ok(Some(_)) => Err(reactivated()),
                Ok(None) => Ok(()),
            }
        },
    }
}

/// What becomes of a dependency of a failed start.
#[derive(Debug, Clone, Copy, PartialEq, Eq, Structural)]
pub enum DependencyCourse {
    /// It is active: it stays.
    Keep,
    /// It is stopped.
    Quiesce,
    /// It is looked at again.
    Wait,
}

/// What becomes of a dependency of a failed start.
pub open spec fn dependency_course(u: UnitView, expired: bool) -> DependencyCourse {
    let idle = u.job == Ok::<Option<JobView>, FaultView>(None);
    if u.state == Ok::<Seq<char>, FaultView>("active"@) && idle {
        DependencyCourse::Keep
    } else if idle || expired {
        DependencyCourse::Quiesce
    } else {
        DependencyCourse::Wait
    }
}

/// What becomes of a dependency of a failed start.
pub fn settle_failed_dependency(u: &UnitObservation, expired: bool) -> (r: DependencyCourse)
    ensures
        r == dependency_course(u@, expired),
{
    let idle = match &u.job {
        Ok(None) => true,
        _ => false,
    };
    let active = match &u.state {
        Ok(state) => same(state.as_str(), "active"),
        Err(_) => false,
    };
    if active && idle {
        DependencyCourse::Keep
    } else if idle || expired {
        DependencyCourse::Quiesce
    } else {
        DependencyCourse::Wait
    }
}

// ---------------------------------------------------------------------------
// Stopping
// ---------------------------------------------------------------------------

/// What the stop of a unit does next.
#[derive(Debug, Clone, Copy, PartialEq, Eq, Structural)]
pub enum StopStage {
    /// See what the unit's state calls for.
    Observe,
    /// Ask the service manager to stop it.
    Request,
    /// See whether it stopped although the request failed.
    ObserveRefused,
    /// Look again until it is at rest or the time is up.
    Wait,
    /// See what it came to.
    ObserveFinal,
    /// See whether the failure still stands.
    ObserveFailed,
    /// Reset the failure.
    Reset,
    /// See whether the failure is gone although the reset failed.
    ObserveUnreset,
    /// See whether it stayed at rest.
    ObserveReset,
    /// Nothing: the stop is over.
    Finished,
}

/// What came of what was to be done.
#[derive(Debug)]
pub enum StopEvent {
    Done,
    Failed(Fault),
    /// The unit's state; whether the time is up.
    State(String, bool),
}

/// An event over plain values.
pub enum StopEventView {
    Done,
    Failed(FaultView),
    State(Seq<char>, bool),
}

impl View for StopEvent {
    type V = StopEventView;

    open spec fn view(&self) -> StopEventView {
        match self {
            StopEvent::Done => StopEventView::Done,
            StopEvent::Failed(e) => StopEventView::Failed(e@),
            StopEvent::State(s, expired) => StopEventView::State(s@, *expired),
        }
    }
}

/// How far the stop of a unit has come.
#[derive(Debug)]
pub struct StopFlow {
    pub stage: StopStage,
    pub error: Option<Fault>,
}

/// A stop over plain values.
pub struct StopFlowView {
    pub stage: StopStage,
    pub error: Option<FaultView>,
}

impl View for StopFlow {
    type V = StopFlowView;

    open spec fn view(&self) -> StopFlowView {
        StopFlowView { stage: self.stage, error: option_fault(self.error) }
    }
}

pub open spec fn stop_ended(e: FaultView) -> StopFlowView {
    StopFlowView { stage: StopStage::Finished, error: Some(e) }
}

pub open spec fn stop_at(stage: StopStage) -> StopFlowView {
    StopFlowView { stage, error: None }
}

/// Where a stop goes with a state of the unit.
pub open spec fn stop_observed(f: StopFlowView, state: Seq<char>, expired: bool) -> StopFlowView {
    let action = stop_of(state);
    match f.stage {
        StopStage::Observe => if action == StopAction::Request {
            stop_at(StopStage::Request)
        } else {
            stop_at(StopStage::ObserveFinal)
        },
        StopStage::ObserveRefused => if action == StopAction::Request {
            StopFlowView { stage: StopStage::Finished, ..f }
        } else {
            stop_at(StopStage::ObserveFinal)
        },
        StopStage::Wait => if action != StopAction::Request || expired {
            stop_at(StopStage::ObserveFinal)
        } else {
            f
        },
        StopStage::ObserveFinal => match action {
            StopAction::Settled => stop_at(StopStage::Finished),
            StopAction::ResetFailed => stop_at(StopStage::ObserveFailed),
            StopAction::Request => stop_ended(reactivated_of()),
        },
        StopStage::ObserveFailed => match action {
            StopAction::Settled => stop_at(StopStage::Finished),
            StopAction::ResetFailed => stop_at(StopStage::Reset),
            StopAction::Request => stop_ended(reactivated_of()),
        },
        StopStage::ObserveUnreset => if action != StopAction::Settled {
            StopFlowView { stage: StopStage::Finished, ..f }
        } else {
            stop_at(StopStage::ObserveReset)
        },
        StopStage::ObserveReset => if action == StopAction::Settled {
            stop_at(StopStage::Finished)
        } else {
            stop_ended(reactivated_of())
        },
        StopStage::Request | StopStage::Reset | StopStage::Finished => f,
    }
}

/// Where a stop goes from an event. An event that does not belong to the stage
/// changes nothing.
pub open spec fn stop_step(f: StopFlowView, e: StopEventView) -> StopFlowView {
    match e {
        StopEventView::Done => match f.stage {
            StopStage::Request => stop_at(StopStage::Wait),
            StopStage::Reset => stop_at(StopStage::ObserveReset),
            _ => f,
        },
        StopEventView::Failed(x) => match f.stage {
            StopStage::Request => StopFlowView { stage: StopStage::ObserveRefused, error: Some(x) },
            StopStage::Reset => StopFlowView { stage: StopStage::ObserveUnreset, error: Some(x) },
            StopStage::Finished => f,
            _ => stop_ended(x),
        },
        StopEventView::State(state, expired) => stop_observed(f, state, expired),
    }
}

impl StopFlow {
    /// Begins the stop of a unit.
    pub fn begin() -> (r: StopFlow)
        ensures
            r@ == stop_at(StopStage::Observe),
    {
        StopFlow { stage: StopStage::Observe, error: None }
    }

    /// Begins the reset of a unit's failure.
    pub fn begin_reset() -> (r: StopFlow)
        ensures
            r@ == stop_at(StopStage::ObserveFailed),
    {
        StopFlow { stage: StopStage::ObserveFailed, error: None }
    }

    fn at(stage: StopStage) -> (r: StopFlow)
        ensures
            r@ == stop_at(stage),
    {
        StopFlow { stage, error: None }
    }

    fn ended(e: Fault) -> (r: StopFlow)
        ensures
            r@ == stop_ended(e@),
    {
        StopFlow { stage: StopStage::Finished, error: Some(e) }
    }

    fn observed(self, state: &str, expired: bool) -> (r: StopFlow)
        ensures
            r@ == stop_observed(self@, state@, expired),
    {
        let action = stop_action(state);
        match self.stage {
            StopStage::Observe => if action == StopAction::Request {
                StopFlow::at(StopStage::Request)
            } else {
                StopFlow::at(StopStage::ObserveFinal)
            },
            StopStage::ObserveRefused => if action == StopAction::Request {
                StopFlow { stage: StopStage::Finished, ..self }
            } else {
                StopFlow::at(StopStage::ObserveFinal)
            },
            StopStage::Wait => if action != StopAction::Request || expired {
                StopFlow::at(StopStage::ObserveFinal)
            } else {
                self
            },
            StopStage::ObserveFinal => match action {
                StopAction::Settled => StopFlow::at(StopStage::Finished),
                StopAction::ResetFailed => StopFlow::at(StopStage::ObserveFailed),
                StopAction::Request => StopFlow::ended(reactivated()),
            },
            StopStage::ObserveFailed => match action {
                StopAction::Settled => StopFlow::at(StopStage::Finished),
                StopAction::ResetFailed => StopFlow::at(StopStage::Reset),
                StopAction::Request => StopFlow::ended(reactivated()),
            },
            StopStage::ObserveUnreset => if action != StopAction::Settled {
                StopFlow { stage: StopStage::Finished, ..self }
            } else {
                StopFlow::at(StopStage::ObserveReset)
            },
            StopStage::ObserveReset => if action == StopAction::Settled {
                StopFlow::at(StopStage::Finished)
            } else {
                StopFlow::ended(reactivated())
            },
            StopStage::Request | StopStage::Reset | StopStage::Finished => self,
        }
    }

    /// Goes on from what came of the last action.
    pub fn step(self, event: StopEvent) -> (r: StopFlow)
        ensures
            r@ == stop_step(self@, event@),
    {
        match event {
            StopEvent::Done => match self.stage {
                StopStage::Request => StopFlow::at(StopStage::Wait),
                StopStage::Reset => StopFlow::at(StopStage::ObserveReset),
                _ => self,
            },
            StopEvent::Failed(e) => match self.stage {
                StopStage::Request => StopFlow {
                    stage: StopStage::ObserveRefused,
                    error: Some(e),
                },
                StopStage::Reset => StopFlow { stage: StopStage::ObserveUnreset, error: Some(e) },
                StopStage::Finished => self,
                _ => StopFlow::ended(e),
            },
            StopEvent::State(state, expired) => self.observed(state.as_str(), expired),
        }
    }
}

// ---------------------------------------------------------------------------
// Quiescence
// ---------------------------------------------------------------------------

/// What a process that has to rest is met with.
#[derive(Debug, Clone, Copy, PartialEq, Eq, Structural)]
pub enum QuiesceAct {
    /// It is at rest.
    Rested,
    /// It is given time.
    Wait,
    /// Its failure is reset.
    Reset,
    /// It is asked to terminate.
    Terminate,
    /// It is killed.
    Kill,
}

/// What has been done about a process that has to rest, and until when it has
/// time, in milliseconds.
#[derive(Debug, Clone, Copy, PartialEq, Eq, Structural)]
pub struct Quiescence {
    pub termination_sent: bool,
    pub escalation: u64,
}

/// What a process is met with, and what is known afterwards.
pub open spec fn quiesce_of(
    q: Quiescence,
    state: Seq<char>,
    job: bool,
    now: int,
    grace: int,
) -> (QuiesceAct, Quiescence) {
    match stop_of(state) {
        StopAction::Settled => if !job {
            (QuiesceAct::Rested, q)
        } else {
            (QuiesceAct::Wait, Quiescence { termination_sent: false, ..q })
        },
        StopAction::ResetFailed => (QuiesceAct::Reset, q),
        StopAction::Request => if !q.termination_sent {
            (
                QuiesceAct::Terminate,
                Quiescence { termination_sent: true, escalation: (now + grace) as u64 },
            )
        } else if now >= q.escalation {
            (QuiesceAct::Kill, Quiescence { escalation: (now + grace) as u64, ..q })
        } else {
            (QuiesceAct::Wait, q)
        },
    }
}

impl Quiescence {
    /// Nothing was done yet.
    pub fn begin(now: u64, grace: u64) -> (r: Quiescence)
        requires
            now + grace <= u64::MAX,
        ensures
            !r.termination_sent,
            r.escalation == now + grace,
    {
        Quiescence { termination_sent: false, escalation: now + grace }
    }

    /// Decides what the process is met with; a job that it has is cancelled first.
    pub fn next(&mut self, state: &str, job_pending: bool, now: u64, grace: u64) -> (r: QuiesceAct)
        requires
            now + grace <= u64::MAX,
        ensures
            (r, *final(self)) == quiesce_of(
                *old(self),
                state@,
                job_pending,
                now as int,
                grace as int,
            ),
    {
        match stop_action(state) {
            StopAction::Settled => {
                if !job_pending {
                    return QuiesceAct::Rested;
                }
                self.termination_sent = false;
                QuiesceAct::Wait
            },
            StopAction::ResetFailed => QuiesceAct::Reset,
            StopAction::Request => {
                if !self.termination_sent {
                    self.termination_sent = true;
                    self.escalation = now + grace;
                    QuiesceAct::Terminate
                } else if now >= self.escalation {
                    self.escalation = now + grace;
                    QuiesceAct::Kill
                } else {
                    QuiesceAct::Wait
                }
            },
        }
    }
}

/// What a start that has to be undone is met with.
#[derive(Debug, Clone, Copy, PartialEq, Eq, Structural)]
pub enum UndoAct {
    Rested,
    Wait,
    /// Its units are killed and stopped, with new time until then.
    Force(u64),
}

/// What a start that has to be undone is met with.
pub fn undo_start(units: &Vec<UnitObservation>, now: u64, escalation: u64, timeout: u64) -> (r:
    UndoAct)
    requires
        now + timeout <= u64::MAX,
    ensures
        r == if forall|i: int| 0 <= i < units@.len() ==> at_rest((#[trigger] units@[i])@) {
            UndoAct::Rested
        } else if now >= escalation {
            UndoAct::Force((now + timeout) as u64)
        } else {
            UndoAct::Wait
        },
{
    if transaction_is_quiesced(units) {
        UndoAct::Rested
    } else if now >= escalation {
        UndoAct::Force(now + timeout)
    } else {
        UndoAct::Wait
    }
}

// ---------------------------------------------------------------------------
// Starting
// ---------------------------------------------------------------------------

/// What the start of a unit does next.
#[derive(Debug, Clone, Copy, PartialEq, Eq, Structural)]
pub enum StartStage {
    /// Ask the service manager to start it.
    Request,
    /// Capture the jobs of the transaction.
    Capture,
    /// Wait for the jobs.
    Wait,
    /// Every unit has to be active.
    Require,
    /// Undo the start of the unit.
    Undo,
    /// Settle the dependency at this position.
    Settle(usize),
    /// Hand the listeners back.
    HandBack,
    /// Nothing: the start is over.
    Finished,
}

/// What came of what was to be done.
#[derive(Debug)]
pub enum StartEvent {
    Done,
    Failed(Fault),
    /// The service manager answered with the object path of a job.
    Job(String),
    /// Whether a job is still pending; whether the time is up.
    Pending(bool, bool),
}

/// An event over plain values.
pub enum StartEventView {
    Done,
    Failed(FaultView),
    Job(Seq<char>),
    Pending(bool, bool),
}

impl View for StartEvent {
    type V = StartEventView;

    open spec fn view(&self) -> StartEventView {
        match self {
            StartEvent::Done => StartEventView::Done,
            StartEvent::Failed(e) => StartEventView::Failed(e@),
            StartEvent::Job(p) => StartEventView::Job(p@),
            StartEvent::Pending(p, expired) => StartEventView::Pending(*p, *expired),
        }
    }
}

/// How far the start of a unit and its dependencies has come.
#[derive(Debug)]
pub struct StartFlow {
    pub stage: StartStage,
    pub dependencies: usize,
    pub error: Option<Fault>,
}

/// A start over plain values.
pub struct StartFlowView {
    pub stage: StartStage,
    pub dependencies: usize,
    pub error: Option<FaultView>,
}

impl View for StartFlow {
    type V = StartFlowView;

    open spec fn view(&self) -> StartFlowView {
        StartFlowView {
            stage: self.stage,
            dependencies: self.dependencies,
            error: option_fault(self.error),
        }
    }
}

/// A start that failed: its unit is undone first.
pub open spec fn start_failed(f: StartFlowView, e: FaultView) -> StartFlowView {
    StartFlowView { stage: StartStage::Undo, error: Some(e), ..f }
}

pub open spec fn settle_from(f: StartFlowView, i: int) -> StartFlowView {
    StartFlowView {
        stage: if i < f.dependencies {
            StartStage::Settle(i as usize)
        } else {
            StartStage::HandBack
        },
        ..f
    }
}

/// Where a start goes from an event. An event that does not belong to the stage
/// changes nothing; what undoes a start is done until it succeeds.
pub open spec fn start_step(f: StartFlowView, e: StartEventView) -> StartFlowView {
    match f.stage {
        StartStage::Request => match e {
            StartEventView::Failed(_) => start_failed(f, operation_failed_of()),
            StartEventView::Job(path) => match job_of(path) {
                Err(x) => start_failed(f, x),
                Ok(_) => StartFlowView { stage: StartStage::Capture, ..f },
            },
            _ => f,
        },
        StartStage::Capture => match e {
            StartEventView::Failed(x) => start_failed(f, x),
            StartEventView::Done => StartFlowView { stage: StartStage::Wait, ..f },
            _ => f,
        },
        StartStage::Wait => match e {
            StartEventView::Failed(x) => start_failed(f, x),
            StartEventView::Pending(pending, expired) => if !pending {
                StartFlowView { stage: StartStage::Require, ..f }
            } else if expired {
                start_failed(
                    f,
                    FaultView {
                        kind: FaultKind::TimedOut,
                        message: "the native systemd start transaction did not settle"@,
                    },
                )
            } else {
                f
            },
            _ => f,
        },
        StartStage::Require => match e {
            StartEventView::Failed(x) => start_failed(f, x),
            StartEventView::Done => StartFlowView { stage: StartStage::Finished, ..f },
            _ => f,
        },
        StartStage::Undo => match e {
            StartEventView::Done => settle_from(f, 0),
            _ => f,
        },
        StartStage::Settle(i) => match e {
            StartEventView::Done => settle_from(f, i + 1),
            _ => f,
        },
        StartStage::HandBack => match e {
            StartEventView::Done => StartFlowView { stage: StartStage::Finished, ..f },
            _ => f,
        },
        StartStage::Finished => f,
    }
}

/// A start that has just begun.
pub open spec fn start_begun(dependencies: usize) -> StartFlowView {
    StartFlowView { stage: StartStage::Request, dependencies, error: None }
}

impl StartFlow {
    /// Begins the start of a unit with so many dependencies.
    pub fn begin(dependencies: usize) -> (r: StartFlow)
        ensures
            r@ == start_begun(dependencies),
    {
        StartFlow { stage: StartStage::Request, dependencies, error: None }
    }

    fn fail(self, e: Fault) -> (r: StartFlow)
        ensures
            r@ == start_failed(self@, e@),
    {
        StartFlow { stage: StartStage::Undo, error: Some(e), ..self }
    }

    fn go(self, stage: StartStage) -> (r: StartFlow)
        ensures
            r@ == (StartFlowView { stage, ..self@ }),
    {
        StartFlow { stage, ..self }
    }

    fn settle(self, i: usize) -> (r: StartFlow)
        ensures
            r@ == settle_from(self@, i as int),
    {
        if i < self.dependencies {
            self.go(StartStage::Settle(i))
        } else {
            self.go(StartStage::HandBack)
        }
    }

    /// Goes on from what came of the last action.
    pub fn step(self, event: StartEvent) -> (r: StartFlow)
        ensures
            r@ == start_step(self@, event@),
    {
        match (self.stage, event) {
            (StartStage::Request, StartEvent::Failed(_)) => self.fail(operation_failed()),
            (StartStage::Request, StartEvent::Job(path)) => match parse_job_path(path.as_str()) {
                Err(e) => self.fail(e),
                Ok(_) => self.go(StartStage::Capture),
            },
            (StartStage::Capture, StartEvent::Failed(e)) => self.fail(e),
            (StartStage::Capture, StartEvent::Done) => self.go(StartStage::Wait),
            (StartStage::Wait, StartEvent::Failed(e)) => self.fail(e),
            (StartStage::Wait, StartEvent::Pending(pending, expired)) => if !pending {
                self.go(StartStage::Require)
            } else if expired {
                self.fail(
                    fault(
                        FaultKind::TimedOut,
                        "the native systemd start transaction did not settle",
                    ),
                )
            } else {
                self
            },
            (StartStage::Require, StartEvent::Failed(e)) => self.fail(e),
            (StartStage::Require, StartEvent::Done) => self.go(StartStage::Finished),
            (StartStage::Undo, StartEvent::Done) => self.settle(0),
            (StartStage::Settle(i), StartEvent::Done) => if i < self.dependencies {
                self.settle(i + 1)
            } else {
                self.go(StartStage::HandBack)
            },
            (StartStage::HandBack, StartEvent::Done) => self.go(StartStage::Finished),
            _ => self,
        }
    }
}

// ---------------------------------------------------------------------------
// Laws
// ---------------------------------------------------------------------------

/// A stop succeeds only where the last state that was seen is one of rest.
pub proof fn law_stops_end_at_rest(f: StopFlowView, e: StopEventView)
    requires
        f.stage != StopStage::Finished,
        stop_step(f, e).stage == StopStage::Finished,
        stop_step(f, e).error is None,
        f.stage == StopStage::ObserveRefused || f.stage == StopStage::ObserveUnreset
            ==> f.error is Some,
    ensures
        e matches StopEventView::State(state, _) && stop_of(state) == StopAction::Settled,
{
}

/// A unit that reactivated is never taken for a stopped one.
pub proof fn law_reactivation_is_never_settled(state: Seq<char>)
    requires
        state == "active"@ || state == "activating"@ || state == "reloading"@ || state
            == "deactivating"@,
    ensures
        stop_of(state) == StopAction::Request,
{
    reveal_strlit("active");
    reveal_strlit("activating");
    reveal_strlit("reloading");
    reveal_strlit("deactivating");
    reveal_strlit("inactive");
    reveal_strlit("not_found");
    reveal_strlit("failed");
    assert("inactive"@[0] == 'i' && "not_found"@[0] == 'n' && "failed"@[0] == 'f');
    assert("active"@[0] == 'a' && "activating"@[0] == 'a' && "reloading"@[0] == 'r'
        && "deactivating"@[0] == 'd');
}

/// A process is killed only behind a request to terminate whose time is up, and
/// rests only where its unit is at rest with no job pending.
pub proof fn law_termination_precedes_killing(
    q: Quiescence,
    state: Seq<char>,
    job: bool,
    now: int,
    grace: int,
)
    ensures
        quiesce_of(q, state, job, now, grace).0 == QuiesceAct::Kill ==> q.termination_sent && now
            >= q.escalation,
        quiesce_of(q, state, job, now, grace).0 == QuiesceAct::Rested <==> stop_of(state)
            == StopAction::Settled && !job,
{
}

/// A start that ends with a failure was undone, and its dependencies settled,
/// before.
pub proof fn law_failed_starts_are_undone(f: StartFlowView, e: StartEventView)
    requires
        f.stage != StartStage::Finished,
        start_step(f, e).stage == StartStage::Finished,
    ensures
        f.stage == StartStage::Require && start_step(f, e).error == f.error || f.stage
            == StartStage::HandBack,
{
}

/// A job is identified by one path and a path by one job.
pub proof fn law_job_paths_are_canonical(id: u32)
    requires
        id > 0,
    ensures
        job_of(job_prefix() + decimal(id as nat)) == Ok::<u32, FaultView>(id),
{
    let digits = decimal(id as nat);
    let path = job_prefix() + digits;
    crate::text::lemma_decimal(id as nat);
    assert(from(path, job_prefix().len() as int) =~= digits);
    assert(path.subrange(0, job_prefix().len() as int) =~= job_prefix());
    assert(crate::text::is_digit(digits[0]));
    assert(unsigned_digits(digits) == digits);
}

/// What a state of a unit calls for: a unit is at rest only where it is inactive or
/// not there, and only a failed one is reset.
pub proof fn law_only_resting_units_are_settled(state: Seq<char>)
    ensures
        stop_of(state) == StopAction::Settled <==> state == "inactive"@ || state == "not_found"@,
        stop_of(state) == StopAction::ResetFailed <==> state == "failed"@,
{
    reveal_strlit("inactive");
    reveal_strlit("not_found");
    reveal_strlit("failed");
    assert("inactive"@[0] == 'i' && "not_found"@[0] == 'n' && "failed"@[0] == 'f');
}

/// A unit that runs is asked to stop, and waited for until it rests or the time is
/// up; a request that failed counts only where the unit still runs. A failed unit is
/// reset before it counts as stopped, and a reset that failed counts only where the
/// failure still stands. A unit that came back is a failure, and so is whatever else
/// fails.
pub proof fn law_running_units_are_stopped(
    state: Seq<char>,
    later: Seq<char>,
    expired: bool,
    x: FaultView,
)
    ensures
        ({
            let rests = |s: Seq<char>| s == "inactive"@ || s == "not_found"@;
            let fails = |s: Seq<char>| s == "failed"@;
            let runs = |s: Seq<char>| !rests(s) && !fails(s);
            let seen = |stage: StopStage, s: Seq<char>| stop_step(
                stop_at(stage),
                StopEventView::State(s, expired),
            );
            let asked = stop_step(stop_at(StopStage::Request), StopEventView::Done);
            let refused = stop_step(stop_at(StopStage::Request), StopEventView::Failed(x));
            let reset = stop_step(stop_at(StopStage::Reset), StopEventView::Done);
            let unreset = stop_step(stop_at(StopStage::Reset), StopEventView::Failed(x));
            &&& seen(StopStage::Observe, state).stage == if runs(state) {
                StopStage::Request
            } else {
                StopStage::ObserveFinal
            }
            &&& asked == stop_at(StopStage::Wait)
            &&& seen(StopStage::Wait, state).stage == if runs(state) && !expired {
                StopStage::Wait
            } else {
                StopStage::ObserveFinal
            }
            &&& ({
                let after = stop_step(refused, StopEventView::State(later, expired));
                if runs(later) {
                    after == stop_ended(x)
                } else {
                    after == stop_at(StopStage::ObserveFinal)
                }
            })
            &&& rests(state) ==> seen(StopStage::ObserveFinal, state) == stop_at(
                StopStage::Finished,
            ) && seen(StopStage::ObserveFailed, state) == stop_at(StopStage::Finished) && seen(
                StopStage::ObserveReset,
                state,
            ) == stop_at(StopStage::Finished)
            &&& fails(state) ==> seen(StopStage::ObserveFinal, state) == stop_at(
                StopStage::ObserveFailed,
            ) && seen(StopStage::ObserveFailed, state) == stop_at(StopStage::Reset)
            &&& runs(state) ==> seen(StopStage::ObserveFinal, state).error is Some && seen(
                StopStage::ObserveFinal,
                state,
            ).stage == StopStage::Finished && seen(StopStage::ObserveFailed, state).error is Some
            &&& !rests(state) ==> seen(StopStage::ObserveReset, state).error is Some && seen(
                StopStage::ObserveReset,
                state,
            ).stage == StopStage::Finished
            &&& reset == stop_at(StopStage::ObserveReset)
            &&& ({
                let after = stop_step(unreset, StopEventView::State(later, expired));
                if rests(later) {
                    after == stop_at(StopStage::ObserveReset)
                } else {
                    after == stop_ended(x)
                }
            })
        }),
{
    law_only_resting_units_are_settled(state);
    law_only_resting_units_are_settled(later);
}

/// A process that runs is asked to terminate first, killed once that has taken too
/// long, and given time otherwise; each time the time begins anew.
pub proof fn law_running_processes_are_ended(
    q: Quiescence,
    state: Seq<char>,
    job: bool,
    now: u64,
    grace: u64,
)
    requires
        now + grace <= u64::MAX,
    ensures
        ({
            let (act, after) = quiesce_of(q, state, job, now as int, grace as int);
            let rests = state == "inactive"@ || state == "not_found"@;
            let runs = !rests && state != "failed"@;
            &&& rests ==> act == if job {
                QuiesceAct::Wait
            } else {
                QuiesceAct::Rested
            }
            &&& state == "failed"@ ==> act == QuiesceAct::Reset
            &&& runs && !q.termination_sent ==> act == QuiesceAct::Terminate
                && after.termination_sent && after.escalation == now + grace
            &&& runs && q.termination_sent && now >= q.escalation ==> act == QuiesceAct::Kill
                && after.escalation == now + grace && after.termination_sent
            &&& runs && q.termination_sent && now < q.escalation ==> act == QuiesceAct::Wait
                && after == q
        }),
{
    law_only_resting_units_are_settled(state);
}

/// Where a start comes to after some events.
pub open spec fn start_run(f: StartFlowView, events: Seq<StartEventView>) -> StartFlowView
    decreases events.len(),
{
    if events.len() == 0 {
        f
    } else {
        start_step(start_run(f, events.drop_last()), events.last())
    }
}

/// Whether an event is the success of what a stage is to do.
pub open spec fn start_succeeds(stage: StartStage, e: StartEventView) -> bool {
    match stage {
        StartStage::Request => e is Job && job_of(e->Job_0) is Ok,
        StartStage::Wait => e is Pending && !e->Pending_0,
        StartStage::Finished => false,
        _ => e is Done,
    }
}

/// The stages that a start has passed, in their order.
pub open spec fn start_passed(f: StartFlowView, events: Seq<StartEventView>) -> Seq<StartStage>
    decreases events.len(),
{
    if events.len() == 0 {
        Seq::empty()
    } else {
        let before = start_passed(f, events.drop_last());
        let stage = start_run(f, events.drop_last()).stage;
        if start_succeeds(stage, events.last()) {
            before.push(stage)
        } else {
            before
        }
    }
}

/// The settlement of the first `n` dependencies.
pub open spec fn settlements(n: int) -> Seq<StartStage>
    decreases n,
{
    if n <= 0 {
        Seq::empty()
    } else {
        settlements(n - 1).push(StartStage::Settle((n - 1) as usize))
    }
}

/// Whether something of a start was passed, and then that what undoes it, as far as
/// that has come.
pub open spec fn start_undoes(passed: Seq<StartStage>, undone: Seq<StartStage>) -> bool {
    let course = seq![
        StartStage::Request,
        StartStage::Capture,
        StartStage::Wait,
        StartStage::Require,
    ];
    exists|k: int| 0 <= k < 4 && passed == #[trigger] course.subrange(0, k) + undone
}

/// A start that succeeds has asked for the unit, captured its jobs, waited for them
/// and seen every unit active. One that fails has undone the start of the unit,
/// settled each dependency in order and handed the listeners back, before it is
/// over.
#[verifier::spinoff_prover]
#[verifier::rlimit(60)]
pub proof fn law_starts_succeed_or_are_undone(dependencies: usize, events: Seq<StartEventView>)
    ensures
        ({
            let begun = start_begun(dependencies);
            let f = start_run(begun, events);
            let passed = start_passed(begun, events);
            let course = seq![
                StartStage::Request,
                StartStage::Capture,
                StartStage::Wait,
                StartStage::Require,
            ];
            &&& f.dependencies == dependencies
            &&& f.error is None ==> on_course(course, passed, f.stage, StartStage::Finished)
            &&& f.error is None && f.stage == StartStage::Finished ==> passed == course
            &&& f.error is Some ==> match f.stage {
                StartStage::Undo => start_undoes(passed, Seq::empty()),
                StartStage::Settle(i) => i < dependencies && start_undoes(
                    passed,
                    seq![StartStage::Undo] + settlements(i as int),
                ),
                StartStage::HandBack => start_undoes(
                    passed,
                    seq![StartStage::Undo] + settlements(dependencies as int),
                ),
                StartStage::Finished => start_undoes(
                    passed,
                    seq![StartStage::Undo] + settlements(dependencies as int) + seq![
                        StartStage::HandBack,
                    ],
                ),
                _ => false,
            }
        }),
    decreases events.len(),
{
    let begun = start_begun(dependencies);
    let course = seq![
        StartStage::Request,
        StartStage::Capture,
        StartStage::Wait,
        StartStage::Require,
    ];
    let passed = start_passed(begun, events);
    if events.len() == 0 {
        assert(passed =~= course.subrange(0, 0));
    } else {
        let before = events.drop_last();
        law_starts_succeed_or_are_undone(dependencies, before);
        let was = start_passed(begun, before);
        let g = start_run(begun, before);
        let f = start_run(begun, events);
        let e = events.last();
        if g.error is None {
            if f.error is None {
                if start_succeeds(g.stage, e) {
                    lemma_passes(course, was, g.stage, f.stage, StartStage::Finished);
                }
                if f.stage == StartStage::Finished {
                    assert(!course.contains(StartStage::Finished));
                    lemma_passed(course, passed, StartStage::Finished);
                }
            } else {
                assert(passed == was);
                assert(was.len() < 4);
                assert(course.subrange(0, was.len() as int) + Seq::<StartStage>::empty() =~= was);
            }
        } else if start_succeeds(g.stage, e) {
            let undone = match g.stage {
                StartStage::Undo => Seq::empty(),
                StartStage::Settle(i) => seq![StartStage::Undo] + settlements(i as int),
                _ => seq![StartStage::Undo] + settlements(dependencies as int),
            };
            let k = choose|k: int| 0 <= k < 4 && was == #[trigger] course.subrange(0, k) + undone;
            assert(passed =~= course.subrange(0, k) + undone.push(g.stage));
            match g.stage {
                StartStage::Undo => {
                    assert(undone.push(g.stage) =~= seq![StartStage::Undo] + settlements(0));
                },
                StartStage::Settle(i) => {
                    assert(undone.push(g.stage) =~= seq![StartStage::Undo] + settlements(
                        i as int + 1,
                    ));
                },
                _ => {
                    assert(undone.push(g.stage) =~= undone + seq![StartStage::HandBack]);
                },
            }
        }
    }
}

} // verus!
