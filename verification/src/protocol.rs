//! The client-facing protocol around the table: the status report, the
//! acquisition poll with its deadline handling, and release by the token's
//! wire form.

use vstd::prelude::*;

use crate::table::{release_spec, LockTable, ReleaseOutcome, TableModel};
use crate::token::{derive_token, parse_token, parsed_token, render_token, token_of_name, token_text};

verus! {

/// The wait a caller gets when it asks for none, in seconds.
pub const DEFAULT_TIMEOUT_SECS: u64 = 60;

/// What a status check reports: the name asked about and whether it is held.
pub struct MutexStatus {
    pub name: String,
    pub is_locked: bool,
}

/// What a successful acquisition hands back: the name, that it is now held,
/// and the rendered owner token the caller must keep for its release.
pub struct LockGrant {
    pub name: String,
    pub is_locked: bool,
    pub token: String,
}

/// Why a release was refused.
#[derive(Debug)]
pub enum ReleaseError {
    /// The presented token does not parse as a UUID; carries the parser's
    /// description of the failure.
    MalformedToken { detail: String },
    /// The name is not held.
    NotFound,
    /// The name is held, but by a different token than the one presented.
    OwnerMismatch,
}

/// One step of an acquisition attempt: the lock was taken, the deadline has
/// passed, or the caller should wait and poll again.
#[derive(Clone, Copy, Debug, PartialEq, Eq, Structural)]
pub enum AcquireStep {
    Acquired { token: u128 },
    TimedOut,
    Wait,
}

/// The effective wait: a missing request falls back to the default, and no
/// caller may wait longer than a lock could possibly live.
pub open spec fn clamped_timeout(requested: Option<u64>, max_lifetime: u64) -> u64 {
    let t = match requested {
        Some(t) => t,
        None => DEFAULT_TIMEOUT_SECS,
    };
    if t >= max_lifetime {
        max_lifetime
    } else {
        t
    }
}

/// What one poll decides, given the table, the clock, and the deadline: a
/// free name is taken at once with its deterministic token; a held name times
/// out strictly after the deadline and otherwise asks for another poll.
pub open spec fn acquire_step_spec(
    m: TableModel,
    name: Seq<char>,
    lifetime: u64,
    now: u64,
    deadline: u64,
) -> (AcquireStep, TableModel) {
    if !m.dom().contains(name) {
        (
            AcquireStep::Acquired { token: token_of_name(name) },
            m.insert(name, (token_of_name(name), lifetime)),
        )
    } else if now > deadline {
        (AcquireStep::TimedOut, m)
    } else {
        (AcquireStep::Wait, m)
    }
}

/// Applies the caller-supplied wait, with its default and its clamp.
pub fn clamp_timeout(requested: Option<u64>, max_lifetime: u64) -> (r: u64)
    ensures
        r == clamped_timeout(requested, max_lifetime),
{
    let t = match requested {
        Some(t) => t,
        None => DEFAULT_TIMEOUT_SECS,
    };
    if t >= max_lifetime {
        max_lifetime
    } else {
        t
    }
}

/// The instant an acquisition attempt gives up, on the caller's clock.
pub fn compute_deadline(now: u64, timeout: u64) -> (r: u64)
    requires
        now + timeout <= u64::MAX,
    ensures
        r == now + timeout,
{
    now + timeout
}

/// A read-only status report for a name.
pub fn check_status(table: &LockTable, name: &str) -> (r: MutexStatus)
    ensures
        r.name@ == name@,
        r.is_locked == table@.dom().contains(name@),
{
    MutexStatus { name: name.to_owned(), is_locked: table.is_locked(name) }
}

/// One poll of an acquisition attempt: tries to take `name` with its
/// deterministic token, and on a held name decides between timing out and
/// waiting by comparing the clock to the deadline. A timeout is reported only
/// strictly after the deadline, never before it.
pub fn acquire_poll(table: &mut LockTable, name: &str, now: u64, deadline: u64) -> (r: AcquireStep)
    requires
        old(table).wf(),
    ensures
        final(table).wf(),
        final(table).lifetime() == old(table).lifetime(),
        (r, final(table)@) == acquire_step_spec(
            old(table)@,
            name@,
            old(table).lifetime(),
            now,
            deadline,
        ),
{
    let token = derive_token(name);
    if table.try_acquire(name, token) {
        AcquireStep::Acquired { token }
    } else if now > deadline {
        AcquireStep::TimedOut
    } else {
        AcquireStep::Wait
    }
}

/// The response a finished acquisition returns: the name, held, and the
/// token's rendered form.
pub fn acquire_grant(name: &str, token: u128) -> (r: LockGrant)
    ensures
        r.name@ == name@,
        r.is_locked,
        r.token@ == token_text(token),
{
    LockGrant { name: name.to_owned(), is_locked: true, token: render_token(token) }
}

/// Releases `name` by the token's wire form: a string that does not parse is
/// refused as malformed with the table untouched; a parsed token releases
/// exactly as the table's own release does, and success reports the name as
/// no longer held.
pub fn release_with_token(table: &mut LockTable, name: &str, token: &str) -> (r: Result<
    MutexStatus,
    ReleaseError,
>)
    requires
        old(table).wf(),
    ensures
        final(table).wf(),
        final(table).lifetime() == old(table).lifetime(),
        parsed_token(token@) is None ==> final(table)@ == old(table)@ && (r matches Err(e)
            && e is MalformedToken),
        parsed_token(token@) matches Some(t) ==> {
            let (outcome, after) = release_spec(old(table)@, name@, t);
            &&& final(table)@ == after
            &&& outcome == ReleaseOutcome::Released <==> (r matches Ok(st) && st.name@ == name@
                && !st.is_locked)
            &&& outcome == ReleaseOutcome::NotFound <==> (r matches Err(e) && e is NotFound)
            &&& outcome == ReleaseOutcome::OwnerMismatch <==> (r matches Err(e)
                && e is OwnerMismatch)
        },
{
    match parse_token(token) {
        Err(detail) => Err(ReleaseError::MalformedToken { detail }),
        Ok(t) => match table.release(name, t) {
            ReleaseOutcome::Released => Ok(
                MutexStatus { name: name.to_owned(), is_locked: false },
            ),
            ReleaseOutcome::NotFound => Err(ReleaseError::NotFound),
            ReleaseOutcome::OwnerMismatch => Err(ReleaseError::OwnerMismatch),
        },
    }
}

} // verus!
