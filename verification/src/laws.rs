//! The store's laws: what holds of issuing and verifying across calls, for
//! every key, code and clock value, proved from the contracts in
//! [`crate::store`].

use vstd::prelude::*;
use crate::store::{issued, outcome_of, verify_step, VerificationStore, VerifyOutcome};

verus! {

/// Issuing a code and then verifying that same code, any time no later than
/// the deadline it was issued with, yields `Valid`.
pub proof fn issued_code_verifies(
    pre: VerificationStore,
    post: VerificationStore,
    k: Seq<char>,
    c: Seq<char>,
    exp: int,
    now: int,
)
    requires
        issued(pre, post, k, c, exp),
        now <= exp,
    ensures
        outcome_of(post, k, c, now) == VerifyOutcome::Valid,
{
}

/// A verification that returned `Valid` or `Expired` consumed the entry:
/// every later verification for that key yields `NoSuchEntry` until a new
/// code is issued, whatever code is presented and whatever the clock reads.
pub proof fn consumption_is_final(
    pre: VerificationStore,
    post: VerificationStore,
    k: Seq<char>,
    p: Seq<char>,
    now: int,
    r: VerifyOutcome,
    p2: Seq<char>,
    now2: int,
)
    requires
        verify_step(pre, post, k, p, now, r),
        r == VerifyOutcome::Valid || r == VerifyOutcome::Expired,
    ensures
        outcome_of(post, k, p2, now2) == VerifyOutcome::NoSuchEntry,
{
}

/// On a store with no pending entry for a key — in particular a fresh store —
/// verification for that key yields `NoSuchEntry`, whatever is presented.
pub proof fn absent_key_never_verifies(
    s: VerificationStore,
    k: Seq<char>,
    p: Seq<char>,
    now: int,
)
    requires
        !s.pending(k),
    ensures
        outcome_of(s, k, p, now) == VerifyOutcome::NoSuchEntry,
{
}

/// Verifying the correct code strictly after the deadline yields `Expired`.
pub proof fn stale_code_expires(
    pre: VerificationStore,
    post: VerificationStore,
    k: Seq<char>,
    c: Seq<char>,
    exp: int,
    now: int,
)
    requires
        issued(pre, post, k, c, exp),
        now > exp,
    ensures
        outcome_of(post, k, c, now) == VerifyOutcome::Expired,
{
}

/// Re-issuing replaces the previous code: after two issues for the same key,
/// the second code verifies as `Valid`, and the superseded first code — if it
/// differs — yields `Mismatch`, never `Valid`.
pub proof fn reissue_supersedes(
    s0: VerificationStore,
    s1: VerificationStore,
    s2: VerificationStore,
    k: Seq<char>,
    c1: Seq<char>,
    e1: int,
    c2: Seq<char>,
    e2: int,
    now: int,
)
    requires
        issued(s0, s1, k, c1, e1),
        issued(s1, s2, k, c2, e2),
        now <= e2,
    ensures
        outcome_of(s2, k, c2, now) == VerifyOutcome::Valid,
        c1 != c2 ==> outcome_of(s2, k, c1, now) == VerifyOutcome::Mismatch,
{
}

/// A `Mismatch` leaves the entry in place: the pending code and deadline are
/// unchanged, and the correct code still verifies as `Valid` at any time no
/// later than the deadline.
pub proof fn mismatch_keeps_entry(
    pre: VerificationStore,
    post: VerificationStore,
    k: Seq<char>,
    p: Seq<char>,
    now: int,
    now2: int,
)
    requires
        verify_step(pre, post, k, p, now, VerifyOutcome::Mismatch),
        now2 <= pre.expiry_at(k),
    ensures
        post.pending(k),
        post.code_at(k) == pre.code_at(k),
        post.expiry_at(k) == pre.expiry_at(k),
        outcome_of(post, k, pre.code_at(k), now2) == VerifyOutcome::Valid,
{
}

/// When several issues for one key are linearized in some order, only the
/// last one's code is live: a following verification yields `Valid` exactly
/// for that code, so it matches exactly one of the issued codes (as long as
/// the codes differ pairwise).
pub proof fn last_issue_wins(
    stores: Seq<VerificationStore>,
    k: Seq<char>,
    cs: Seq<Seq<char>>,
    exps: Seq<int>,
    p: Seq<char>,
    now: int,
)
    requires
        cs.len() > 0,
        stores.len() == cs.len() + 1,
        exps.len() == cs.len(),
        forall|i: int|
            0 <= i < cs.len() ==> issued(
                stores[i],
                stores[i + 1],
                k,
                #[trigger] cs[i],
                exps[i],
            ),
        now <= exps.last(),
    ensures
        outcome_of(stores.last(), k, p, now) == VerifyOutcome::Valid <==> p == cs.last(),
{
    let n = cs.len() as int;
    assert(issued(stores[n - 1], stores[n], k, cs[n - 1], exps[n - 1]));
}

} // verus!
