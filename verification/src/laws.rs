//! The properties the service promises, stated over the abstract table
//! transitions that the executable operations are proved to follow.

use vstd::prelude::*;

use crate::protocol::{acquire_step_spec, AcquireStep};
use crate::table::{decrement_map, release_spec, try_acquire_spec, ReleaseOutcome, TableModel};

verus! {

/// The table after `n` sweep passes.
pub open spec fn decrement_iter(m: TableModel, n: nat) -> TableModel
    decreases n,
{
    if n == 0 {
        m
    } else {
        decrement_map(decrement_iter(m, (n - 1) as nat))
    }
}

/// Two try-acquires in a row on a free name: the first succeeds, and the
/// second fails whatever owner it offers, leaving the table exactly as the
/// first left it.
pub proof fn lemma_try_acquire_twice(
    m: TableModel,
    name: Seq<char>,
    owner1: u128,
    owner2: u128,
    lifetime: u64,
)
    requires
        !m.dom().contains(name),
    ensures
        try_acquire_spec(m, name, owner1, lifetime).0,
        !try_acquire_spec(try_acquire_spec(m, name, owner1, lifetime).1, name, owner2, lifetime).0,
        try_acquire_spec(try_acquire_spec(m, name, owner1, lifetime).1, name, owner2, lifetime).1
            == try_acquire_spec(m, name, owner1, lifetime).1,
{
}

/// A release succeeds exactly when it presents the stored owner token; any
/// other token is refused as a mismatch and leaves the held entry untouched.
pub proof fn lemma_release_needs_exact_owner(m: TableModel, name: Seq<char>, owner: u128)
    requires
        m.dom().contains(name),
    ensures
        release_spec(m, name, owner).0 == ReleaseOutcome::Released <==> owner == m[name].0,
        owner != m[name].0 ==> release_spec(m, name, owner) == (ReleaseOutcome::OwnerMismatch, m),
{
}

/// Along the sweeps after an acquisition nobody touches, the entry keeps its
/// owner and loses exactly one tick per pass.
proof fn lemma_untouched_ticks(m: TableModel, name: Seq<char>, owner: u128, lifetime: u64, k: nat)
    requires
        !m.dom().contains(name),
        1 <= lifetime,
        k <= lifetime - 1,
    ensures
        decrement_iter(m.insert(name, (owner, lifetime)), k).dom().contains(name),
        decrement_iter(m.insert(name, (owner, lifetime)), k)[name] == (
            owner,
            (lifetime - k) as u64,
        ),
    decreases k,
{
    if k > 0 {
        lemma_untouched_ticks(m, name, owner, lifetime, (k - 1) as nat);
    }
}

/// A held lock that is never released survives one sweep short of the full
/// lifetime and is evicted by the lifetime-th sweep.
pub proof fn lemma_untouched_lock_expiry(
    m: TableModel,
    name: Seq<char>,
    owner: u128,
    lifetime: u64,
)
    requires
        !m.dom().contains(name),
        1 <= lifetime,
    ensures
        decrement_iter(m.insert(name, (owner, lifetime)), (lifetime - 1) as nat).dom().contains(
            name,
        ),
        !decrement_iter(m.insert(name, (owner, lifetime)), lifetime as nat).dom().contains(name),
{
    lemma_untouched_ticks(m, name, owner, lifetime, (lifetime - 1) as nat);
    assert(decrement_iter(m.insert(name, (owner, lifetime)), lifetime as nat) == decrement_map(
        decrement_iter(m.insert(name, (owner, lifetime)), (lifetime - 1) as nat),
    ));
}

/// An acquisition poll reports a timeout only strictly after its deadline has
/// passed, and on a name that stays held it never reports anything else: it
/// waits until the deadline and times out from then on.
pub proof fn lemma_no_early_timeout(
    m: TableModel,
    name: Seq<char>,
    lifetime: u64,
    now: u64,
    deadline: u64,
)
    ensures
        acquire_step_spec(m, name, lifetime, now, deadline).0 == AcquireStep::TimedOut ==> now
            > deadline,
        m.dom().contains(name) && now > deadline ==> acquire_step_spec(
            m,
            name,
            lifetime,
            now,
            deadline,
        ) == (AcquireStep::TimedOut, m),
        m.dom().contains(name) && now <= deadline ==> acquire_step_spec(
            m,
            name,
            lifetime,
            now,
            deadline,
        ) == (AcquireStep::Wait, m),
{
}

/// On a free name the very first poll acquires, whatever the clock and the
/// deadline say: an attempt with a zero timeout succeeds at once, with no
/// wait step.
pub proof fn lemma_free_name_acquired_at_once(
    m: TableModel,
    name: Seq<char>,
    lifetime: u64,
    now: u64,
    deadline: u64,
)
    requires
        !m.dom().contains(name),
    ensures
        acquire_step_spec(m, name, lifetime, now, deadline).0 matches AcquireStep::Acquired { .. },
{
}

} // verus!
