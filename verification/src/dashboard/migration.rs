//! Moving the dashboard to another host: the migration's status, which
//! requests each status allows, and the status each accepted request or
//! finished background step leaves behind.
use vstd::prelude::*;
use crate::dashboard::error::{AppError, Result};
use crate::text::{chars_of, decimal_int, push_int, slice_chars, str_eq, string_of, trim, trim_chars};

verus! {

pub const IDLE: &'static str = "idle";
pub const PREPARING: &'static str = "preparing";
pub const TRANSFERRING: &'static str = "transferring";
pub const NOTIFYING_AGENTS: &'static str = "notifying_agents";
pub const WAITING_AGENTS: &'static str = "waiting_agents";
pub const COMPLETED: &'static str = "completed";
pub const ABORTED: &'static str = "aborted";
pub const FAILED: &'static str = "error";

pub const PREPARE_BUSY: &'static str = "migration already in progress \u{2014} abort or wait for completion";
pub const START_BUSY: &'static str = "migration already in progress \u{2014} abort first";
pub const NOTHING_TO_ABORT: &'static str = "nothing to abort \u{2014} migration is idle or already completed";
pub const SHUTDOWN_EARLY: &'static str = "shutdown only available after all agents have confirmed";
pub const TARGET_URL_REQUIRED: &'static str = "target_url required";

/// What an administrator asks of the migration.
#[derive(Debug, Clone, Copy, PartialEq, Eq)]
pub enum MigrationRequest {
    /// Make this dashboard the target of a migration.
    Prepare,
    /// Start moving this dashboard to a target.
    Start,
    /// Cancel the migration.
    Abort,
    /// Declare the migration done and shut this dashboard down.
    ConfirmShutdown,
}

/// Why a request is refused in `status`, if it is: a migration is prepared
/// or started only from `idle`, aborted unless idle or completed, and
/// closed only while waiting for the agents.
pub open spec fn request_refusal(status: Seq<char>, req: MigrationRequest) -> Option<Seq<char>> {
    match req {
        MigrationRequest::Prepare => if status != IDLE@ { Some(PREPARE_BUSY@) } else { None },
        MigrationRequest::Start => if status != IDLE@ { Some(START_BUSY@) } else { None },
        MigrationRequest::Abort => if status == COMPLETED@ || status == IDLE@ { Some(NOTHING_TO_ABORT@) } else { None },
        MigrationRequest::ConfirmShutdown => if status != WAITING_AGENTS@ { Some(SHUTDOWN_EARLY@) } else { None },
    }
}

/// The status an accepted request leaves.
pub open spec fn status_after(req: MigrationRequest) -> Seq<char> {
    match req {
        MigrationRequest::Prepare => PREPARING@,
        MigrationRequest::Start => TRANSFERRING@,
        MigrationRequest::Abort => ABORTED@,
        MigrationRequest::ConfirmShutdown => COMPLETED@,
    }
}

fn refuse(msg: &str) -> (r: Result<&'static str>)
    ensures
        r matches Err(AppError::Validation(m)) && m@ == msg@,
{
    Err(AppError::Validation(msg.to_string()))
}

/// The status after `req` in `status`, or the validation error refusing it.
pub fn migration_request(status: &str, req: MigrationRequest) -> (r: Result<&'static str>)
    ensures
        match r {
            Ok(s) => request_refusal(status@, req) is None && s@ == status_after(req),
            Err(AppError::Validation(m)) => request_refusal(status@, req) == Some(m@),
            Err(_) => false,
        },
{
    match req {
        MigrationRequest::Prepare => if !str_eq(status, IDLE) { refuse(PREPARE_BUSY) } else { Ok(PREPARING) },
        MigrationRequest::Start => if !str_eq(status, IDLE) { refuse(START_BUSY) } else { Ok(TRANSFERRING) },
        MigrationRequest::Abort => if str_eq(status, COMPLETED) || str_eq(status, IDLE) {
            refuse(NOTHING_TO_ABORT)
        } else {
            Ok(ABORTED)
        },
        MigrationRequest::ConfirmShutdown => if !str_eq(status, WAITING_AGENTS) {
            refuse(SHUTDOWN_EARLY)
        } else {
            Ok(COMPLETED)
        },
    }
}

/// A completed migration is final: every request is refused.
pub proof fn completed_is_final(req: MigrationRequest)
    ensures
        request_refusal(COMPLETED@, req) is Some,
{
    reveal_strlit("completed");
    reveal_strlit("idle");
    reveal_strlit("waiting_agents");
    assert(COMPLETED@.len() == 9);
    assert(IDLE@.len() == 4);
    assert(WAITING_AGENTS@.len() == 14);
}

/// A migration under way (neither idle nor completed) can always be
/// aborted, and then no new one can be prepared or started.
pub proof fn abort_is_terminal(status: Seq<char>)
    requires
        status != IDLE@,
        status != COMPLETED@,
    ensures
        request_refusal(status, MigrationRequest::Abort) is None,
        request_refusal(status_after(MigrationRequest::Abort), MigrationRequest::Prepare) is Some,
        request_refusal(status_after(MigrationRequest::Abort), MigrationRequest::Start) is Some,
{
    reveal_strlit("aborted");
    reveal_strlit("idle");
    assert(ABORTED@.len() == 7);
    assert(IDLE@.len() == 4);
}

// ---------------------------------------------------------------------------
// Starting and closing
// ---------------------------------------------------------------------------

/// `s` without its trailing `/` characters.
pub open spec fn trim_end_slashes(s: Seq<char>) -> Seq<char>
    decreases s.len(),
{
    if s.len() > 0 && s.last() == '/' { trim_end_slashes(s.drop_last()) } else { s }
}

/// The target of a migration as it is stored: trimmed, without trailing
/// slashes.
pub open spec fn target_url_spec(url: Seq<char>) -> Seq<char> {
    trim_end_slashes(trim(url))
}

/// Checks a start request in `status`: the migration must be idle and the
/// target given; returns the target as it is stored.
pub fn check_start(status: &str, target_url: &str) -> (r: Result<String>)
    ensures
        match r {
            Ok(u) => request_refusal(status@, MigrationRequest::Start) is None
                && u@ == target_url_spec(target_url@) && u@.len() > 0,
            Err(AppError::Validation(m)) => if request_refusal(status@, MigrationRequest::Start) is Some {
                m@ == START_BUSY@
            } else {
                target_url_spec(target_url@).len() == 0 && m@ == TARGET_URL_REQUIRED@
            },
            Err(_) => false,
        },
{
    if !str_eq(status, IDLE) {
        return Err(AppError::Validation(START_BUSY.to_string()));
    }
    let v = chars_of(target_url);
    let t = trim_chars(v.as_slice());
    let mut n: usize = t.len();
    assert(t@.take(n as int) =~= t@);
    while n > 0 && t[n - 1] == '/'
        invariant
            t@ == trim(target_url@),
            n <= t@.len(),
            trim_end_slashes(t@.take(n as int)) == target_url_spec(target_url@),
        decreases n,
    {
        assert(t@.take(n as int).drop_last() =~= t@.take(n - 1));
        n = n - 1;
    }
    assert(t@.take(t@.len() as int) =~= t@);
    let u = slice_chars(t.as_slice(), 0, n);
    assert(u@ =~= t@.take(n as int));
    if u.len() == 0 {
        return Err(AppError::Validation(TARGET_URL_REQUIRED.to_string()));
    }
    Ok(string_of(u.as_slice()))
}

pub const PENDING_OF: &'static str = " of ";
pub const PENDING_TAIL: &'static str = " agents still pending";

/// Closing waits for every agent: `<pending> of <total> agents still
/// pending` while fewer than all have confirmed.
pub fn check_all_confirmed(agents_total: i32, agents_confirmed: i32) -> (r: Result<()>)
    requires
        i32::MIN <= agents_total - agents_confirmed <= i32::MAX,
    ensures
        match r {
            Ok(()) => agents_confirmed >= agents_total,
            Err(AppError::Validation(m)) => agents_confirmed < agents_total
                && m@ == decimal_int(agents_total - agents_confirmed) + PENDING_OF@ + decimal_int(agents_total as int) + PENDING_TAIL@,
            Err(_) => false,
        },
{
    if agents_confirmed < agents_total {
        let mut m = String::new();
        push_int(&mut m, (agents_total - agents_confirmed) as i64);
        m.append(PENDING_OF);
        push_int(&mut m, agents_total as i64);
        m.append(PENDING_TAIL);
        return Err(AppError::Validation(m));
    }
    Ok(())
}

/// The steps that run in the background once a request is accepted.
#[derive(Debug, Clone, Copy, PartialEq, Eq)]
pub enum BackgroundStep {
    /// The source sent its data to the target and notified its agents.
    Transfer,
    /// The target restored the data it received.
    Restore,
}

/// The status a finished background step leaves: the next stage, or
/// `error` when it failed.
pub open spec fn background_status_spec(step: BackgroundStep, ok: bool) -> Seq<char> {
    if !ok {
        FAILED@
    } else {
        match step {
            BackgroundStep::Transfer => NOTIFYING_AGENTS@,
            BackgroundStep::Restore => WAITING_AGENTS@,
        }
    }
}

pub fn background_status(step: BackgroundStep, ok: bool) -> (r: &'static str)
    ensures
        r@ == background_status_spec(step, ok),
{
    if !ok {
        FAILED
    } else {
        match step {
            BackgroundStep::Transfer => NOTIFYING_AGENTS,
            BackgroundStep::Restore => WAITING_AGENTS,
        }
    }
}

} // verus!
