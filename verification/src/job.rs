//! The per-server job: a state machine from cache check through credential
//! resolution, fetch and processing to one terminal outcome. The runner that
//! performs the outside work feeds each step's result back as an event; every
//! decision between steps is made here.

use vstd::prelude::*;

use crate::credentials::{CredentialModel, CredentialResult};
use crate::kube::CertStatus;
use crate::state::{RunStatus, ServerRunState};
use crate::text::{lower_seq, seq_contains, str_contains_lowered};

verus! {

/// Why a job ended without fetching.
#[derive(Clone, Copy, PartialEq, Eq, Structural, Debug)]
pub enum SkipReason {
    CertValid(i64),
    KeyringUnavailable,
}

/// How a failure is classified, from its error text.
#[derive(Clone, Copy, PartialEq, Eq, Structural, Debug)]
pub enum FailureClass {
    AuthRejected,
    Other,
}

/// Terminal outcome of one server's job.
pub enum JobOutcome {
    Fetched,
    Skipped(SkipReason),
    Failed(FailureClass, String),
}

/// Model of an outcome.
#[verifier::ext_equal]
pub enum OutcomeModel {
    Fetched,
    Skipped(SkipReason),
    Failed(FailureClass, Seq<char>),
}

impl View for JobOutcome {
    type V = OutcomeModel;

    open spec fn view(&self) -> OutcomeModel {
        match self {
            JobOutcome::Fetched => OutcomeModel::Fetched,
            JobOutcome::Skipped(r) => OutcomeModel::Skipped(*r),
            JobOutcome::Failed(c, e) => OutcomeModel::Failed(*c, e@),
        }
    }
}

/// Where a job stands. `Fetch` carries the password the fetch is to use.
pub enum JobPhase {
    CheckCache,
    ResolveCredential,
    Fetch(Option<String>),
    Process,
    Done(JobOutcome),
}

/// Model of a phase.
#[verifier::ext_equal]
pub enum PhaseModel {
    CheckCache,
    ResolveCredential,
    Fetch(Option<Seq<char>>),
    Process,
    Done(OutcomeModel),
}

impl View for JobPhase {
    type V = PhaseModel;

    open spec fn view(&self) -> PhaseModel {
        match self {
            JobPhase::CheckCache => PhaseModel::CheckCache,
            JobPhase::ResolveCredential => PhaseModel::ResolveCredential,
            JobPhase::Fetch(pw) => PhaseModel::Fetch(
                match pw {
                    Some(p) => Some(p@),
                    None => None,
                },
            ),
            JobPhase::Process => PhaseModel::Process,
            JobPhase::Done(o) => PhaseModel::Done(o@),
        }
    }
}

/// What the runner reports back: the result of the step it performed.
pub enum JobEvent {
    CacheChecked(CertStatus),
    CredentialResolved(CredentialResult),
    FetchFinished(Result<(), String>),
    ProcessFinished(Result<(), String>),
}

/// Model of an event.
#[verifier::ext_equal]
pub enum EventModel {
    CacheChecked(CertStatus),
    CredentialResolved(CredentialModel),
    FetchFinished(Result<(), Seq<char>>),
    ProcessFinished(Result<(), Seq<char>>),
}

impl View for JobEvent {
    type V = EventModel;

    open spec fn view(&self) -> EventModel {
        match self {
            JobEvent::CacheChecked(s) => EventModel::CacheChecked(*s),
            JobEvent::CredentialResolved(c) => EventModel::CredentialResolved(c@),
            JobEvent::FetchFinished(r) => EventModel::FetchFinished(
                match r {
                    Ok(()) => Ok(()),
                    Err(e) => Err(e@),
                },
            ),
            JobEvent::ProcessFinished(r) => EventModel::ProcessFinished(
                match r {
                    Ok(()) => Ok(()),
                    Err(e) => Err(e@),
                },
            ),
        }
    }
}

// ─── Failure classification ──────────────────────────────────────────────────

/// The error text, case-folded, names an authentication rejection.
pub open spec fn spec_auth_error(s: Seq<char>) -> bool {
    ||| seq_contains(lower_seq(s), "authentication failed"@)
    ||| seq_contains(lower_seq(s), "auth rejected"@)
}

/// The classification an error text receives.
pub open spec fn spec_classify(s: Seq<char>) -> FailureClass {
    if spec_auth_error(s) {
        FailureClass::AuthRejected
    } else {
        FailureClass::Other
    }
}

/// Whether error text indicates an authentication rejection.
pub fn is_auth_error(err: &str) -> (b: bool)
    ensures
        b == spec_auth_error(err@),
{
    if str_contains_lowered(err, "authentication failed") {
        return true;
    }
    str_contains_lowered(err, "auth rejected")
}

/// Classify error text.
pub fn classify_failure(err: &str) -> (r: FailureClass)
    ensures
        r == spec_classify(err@),
{
    if is_auth_error(err) {
        FailureClass::AuthRejected
    } else {
        FailureClass::Other
    }
}

// ─── The state machine ───────────────────────────────────────────────────────

/// The phase a job starts in: a forced run goes straight to credential
/// resolution; otherwise the cached certificate is consulted first.
pub open spec fn spec_job_start(force: bool) -> PhaseModel {
    if force {
        PhaseModel::ResolveCredential
    } else {
        PhaseModel::CheckCache
    }
}

/// One step of the job: the next phase, given the phase and the event that
/// ended it. An event that does not belong to the phase changes nothing.
pub open spec fn spec_job_step(phase: PhaseModel, event: EventModel) -> PhaseModel {
    match (phase, event) {
        (PhaseModel::CheckCache, EventModel::CacheChecked(st)) => match st {
            CertStatus::Valid(t) => PhaseModel::Done(
                OutcomeModel::Skipped(SkipReason::CertValid(t)),
            ),
            CertStatus::Expired(_) => PhaseModel::ResolveCredential,
            CertStatus::Unknown => PhaseModel::ResolveCredential,
        },
        (PhaseModel::ResolveCredential, EventModel::CredentialResolved(c)) => match c {
            CredentialModel::Found(pw) => PhaseModel::Fetch(Some(pw)),
            CredentialModel::NotFound => PhaseModel::Fetch(None),
            CredentialModel::Unavailable(_) => PhaseModel::Done(
                OutcomeModel::Skipped(SkipReason::KeyringUnavailable),
            ),
        },
        (PhaseModel::Fetch(_), EventModel::FetchFinished(r)) => match r {
            Ok(()) => PhaseModel::Process,
            Err(e) => PhaseModel::Done(OutcomeModel::Failed(spec_classify(e), e)),
        },
        (PhaseModel::Process, EventModel::ProcessFinished(r)) => match r {
            Ok(()) => PhaseModel::Done(OutcomeModel::Fetched),
            Err(e) => PhaseModel::Done(OutcomeModel::Failed(spec_classify(e), e)),
        },
        (p, _) => p,
    }
}

/// The phase a job starts in.
pub fn job_start(force: bool) -> (r: JobPhase)
    ensures
        r@ == spec_job_start(force),
{
    if force {
        JobPhase::ResolveCredential
    } else {
        JobPhase::CheckCache
    }
}

/// Advance the job by one step.
pub fn job_step(phase: JobPhase, event: JobEvent) -> (r: JobPhase)
    ensures
        r@ == spec_job_step(phase@, event@),
{
    match (phase, event) {
        (JobPhase::CheckCache, JobEvent::CacheChecked(st)) => match st {
            CertStatus::Valid(t) => JobPhase::Done(JobOutcome::Skipped(SkipReason::CertValid(t))),
            CertStatus::Expired(_) => JobPhase::ResolveCredential,
            CertStatus::Unknown => JobPhase::ResolveCredential,
        },
        (JobPhase::ResolveCredential, JobEvent::CredentialResolved(c)) => match c {
            CredentialResult::Found(pw) => JobPhase::Fetch(Some(pw)),
            CredentialResult::NotFound => JobPhase::Fetch(None),
            CredentialResult::Unavailable(_) => JobPhase::Done(
                JobOutcome::Skipped(SkipReason::KeyringUnavailable),
            ),
        },
        (JobPhase::Fetch(_), JobEvent::FetchFinished(r)) => match r {
            Ok(()) => JobPhase::Process,
            Err(e) => {
                let class = classify_failure(e.as_str());
                JobPhase::Done(JobOutcome::Failed(class, e))
            },
        },
        (JobPhase::Process, JobEvent::ProcessFinished(r)) => match r {
            Ok(()) => JobPhase::Done(JobOutcome::Fetched),
            Err(e) => {
                let class = classify_failure(e.as_str());
                JobPhase::Done(JobOutcome::Failed(class, e))
            },
        },
        (p, _) => p,
    }
}

// ─── Laws of the job ─────────────────────────────────────────────────────────

/// Law: with no force flag, a cached document whose recorded expiry lies in
/// the future ends the job at its first step, skipped for a valid
/// certificate — before any credential lookup or fetch phase is reached.
pub proof fn lemma_fresh_cache_skips(doc: Option<crate::kube::KubeModel>, now: i64, t: i64)
    requires
        crate::kube::spec_cert_status(doc, now) == CertStatus::Valid(t),
    ensures
        spec_job_step(
            spec_job_start(false),
            EventModel::CacheChecked(crate::kube::spec_cert_status(doc, now)),
        ) == PhaseModel::Done(OutcomeModel::Skipped(SkipReason::CertValid(t))),
        t > now,
{
}

/// Law: with a cached expiry in the past, or no usable cached document at
/// all, the skip branch is never taken — the job always proceeds to
/// credential resolution.
pub proof fn lemma_stale_cache_never_skips(doc: Option<crate::kube::KubeModel>, now: i64)
    requires
        !(crate::kube::spec_cert_status(doc, now) is Valid),
    ensures
        spec_job_step(
            spec_job_start(false),
            EventModel::CacheChecked(crate::kube::spec_cert_status(doc, now)),
        ) == PhaseModel::ResolveCredential,
{
}

/// Law: a finished job stays finished — no later event changes its outcome.
pub proof fn lemma_done_is_terminal(outcome: OutcomeModel, event: EventModel)
    ensures
        spec_job_step(PhaseModel::Done(outcome), event) == PhaseModel::Done(outcome),
{
}

/// Law: an unavailable credential backend ends the job skipped, never failed.
pub proof fn lemma_unavailable_backend_skips(reason: Seq<char>)
    ensures
        spec_job_step(
            PhaseModel::ResolveCredential,
            EventModel::CredentialResolved(CredentialModel::Unavailable(reason)),
        ) == PhaseModel::Done(OutcomeModel::Skipped(SkipReason::KeyringUnavailable)),
{
}

// ─── Recording outcomes ──────────────────────────────────────────────────────

/// The status recorded for an outcome.
pub open spec fn spec_run_status(o: OutcomeModel) -> RunStatus {
    match o {
        OutcomeModel::Fetched => RunStatus::Fetched,
        OutcomeModel::Skipped(SkipReason::CertValid(_)) => RunStatus::Skipped,
        OutcomeModel::Skipped(SkipReason::KeyringUnavailable) => RunStatus::NoCredential,
        OutcomeModel::Failed(FailureClass::AuthRejected, _) => RunStatus::AuthRejected,
        OutcomeModel::Failed(FailureClass::Other, _) => RunStatus::Failed,
    }
}

/// The status recorded for an outcome.
pub fn run_status_of(outcome: &JobOutcome) -> (r: RunStatus)
    ensures
        r == spec_run_status(outcome@),
{
    match outcome {
        JobOutcome::Fetched => RunStatus::Fetched,
        JobOutcome::Skipped(SkipReason::CertValid(_)) => RunStatus::Skipped,
        JobOutcome::Skipped(SkipReason::KeyringUnavailable) => RunStatus::NoCredential,
        JobOutcome::Failed(FailureClass::AuthRejected, _) => RunStatus::AuthRejected,
        JobOutcome::Failed(FailureClass::Other, _) => RunStatus::Failed,
    }
}

/// The run-state record written for an outcome at instant `now`: its status,
/// the instant, and the error text for failures only.
pub fn outcome_run_state(outcome: &JobOutcome, now: i64) -> (r: ServerRunState)
    ensures
        r@.status == spec_run_status(outcome@),
        r@.last_updated == Some(now),
        r@.error == match outcome@ {
            OutcomeModel::Failed(_, e) => Some(e),
            _ => None,
        },
{
    let status = run_status_of(outcome);
    let error = match outcome {
        JobOutcome::Failed(_, e) => Some(e.clone()),
        _ => None,
    };
    ServerRunState { status, last_updated: Some(now), error }
}

// ─── Run summary ─────────────────────────────────────────────────────────────

/// Counts of a whole run's outcomes.
#[derive(Clone, Copy, PartialEq, Eq, Structural, Debug)]
pub struct RunSummary {
    pub fetched: usize,
    pub skipped_cert_valid: usize,
    pub skipped_no_cred: usize,
    pub failed: usize,
}

pub open spec fn is_fetched(o: OutcomeModel) -> bool {
    o is Fetched
}

pub open spec fn is_skipped_cert_valid(o: OutcomeModel) -> bool {
    o matches OutcomeModel::Skipped(SkipReason::CertValid(_))
}

pub open spec fn is_skipped_no_cred(o: OutcomeModel) -> bool {
    o == OutcomeModel::Skipped(SkipReason::KeyringUnavailable)
}

pub open spec fn is_failed(o: OutcomeModel) -> bool {
    o is Failed
}

/// The models of a vector of outcomes.
pub open spec fn outcomes_model(v: Seq<JobOutcome>) -> Seq<OutcomeModel> {
    v.map_values(|o: JobOutcome| o@)
}

/// Count each class of outcome.
pub fn summarize(outcomes: &Vec<JobOutcome>) -> (r: RunSummary)
    ensures
        ({
            let m = outcomes_model(outcomes@);
            &&& r.fetched == m.filter(|o: OutcomeModel| is_fetched(o)).len()
            &&& r.skipped_cert_valid == m.filter(|o: OutcomeModel| is_skipped_cert_valid(o)).len()
            &&& r.skipped_no_cred == m.filter(|o: OutcomeModel| is_skipped_no_cred(o)).len()
            &&& r.failed == m.filter(|o: OutcomeModel| is_failed(o)).len()
        }),
{
    let ghost m = outcomes_model(outcomes@);
    let ghost pf = |o: OutcomeModel| is_fetched(o);
    let ghost pv = |o: OutcomeModel| is_skipped_cert_valid(o);
    let ghost pn = |o: OutcomeModel| is_skipped_no_cred(o);
    let ghost pe = |o: OutcomeModel| is_failed(o);
    let mut fetched: usize = 0;
    let mut skipped_cert_valid: usize = 0;
    let mut skipped_no_cred: usize = 0;
    let mut failed: usize = 0;
    let mut i: usize = 0;
    while i < outcomes.len()
        invariant
            m == outcomes_model(outcomes@),
            pf == (|o: OutcomeModel| is_fetched(o)),
            pv == (|o: OutcomeModel| is_skipped_cert_valid(o)),
            pn == (|o: OutcomeModel| is_skipped_no_cred(o)),
            pe == (|o: OutcomeModel| is_failed(o)),
            i <= m.len(),
            fetched == m.subrange(0, i as int).filter(pf).len(),
            skipped_cert_valid == m.subrange(0, i as int).filter(pv).len(),
            skipped_no_cred == m.subrange(0, i as int).filter(pn).len(),
            failed == m.subrange(0, i as int).filter(pe).len(),
            fetched <= i && skipped_cert_valid <= i && skipped_no_cred <= i && failed <= i,
        decreases m.len() - i,
    {
        let ghost pre = m.subrange(0, i as int);
        proof {
            assert(m[i as int] == outcomes@[i as int]@);
            assert(m.subrange(0, i + 1 as int) =~= pre.push(m[i as int]));
            crate::merge::lemma_filter_push(pre, m[i as int], pf);
            crate::merge::lemma_filter_push(pre, m[i as int], pv);
            crate::merge::lemma_filter_push(pre, m[i as int], pn);
            crate::merge::lemma_filter_push(pre, m[i as int], pe);
        }
        match &outcomes[i] {
            JobOutcome::Fetched => {
                fetched = fetched + 1;
            },
            JobOutcome::Skipped(SkipReason::CertValid(_)) => {
                skipped_cert_valid = skipped_cert_valid + 1;
            },
            JobOutcome::Skipped(SkipReason::KeyringUnavailable) => {
                skipped_no_cred = skipped_no_cred + 1;
            },
            JobOutcome::Failed(_, _) => {
                failed = failed + 1;
            },
        }
        i = i + 1;
    }
    proof {
        assert(m.subrange(0, m.len() as int) =~= m);
    }
    RunSummary { fetched, skipped_cert_valid, skipped_no_cred, failed }
}

/// Whether a run's outcome deserves a summary line: silence is kept only when
/// nothing was fetched, nothing failed, and no credential store was missing.
pub fn summary_is_notable(s: &RunSummary) -> (b: bool)
    ensures
        b == (s.fetched > 0 || s.failed > 0 || s.skipped_no_cred > 0),
{
    s.fetched > 0 || s.failed > 0 || s.skipped_no_cred > 0
}

} // verus!
