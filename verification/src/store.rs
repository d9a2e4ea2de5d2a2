//! The verification store: at most one pending time-boxed numeric code per
//! identity key. Issuing overwrites any prior entry for the key; a successful
//! or expired verification consumes the entry; a mismatch leaves it in place.
//!
//! Every operation takes the current time as an argument, so the expiry logic
//! is verified for every clock value; the `issue` / `verify` pair reads the
//! system clock once and hands it to the corresponding `_at` operation.

use vstd::prelude::*;
use crate::codegen;
use crate::codegen::is_code_string;
use crate::text::str_eq;

verus! {

/// Length, in digit characters, of every code the store issues.
pub const CODE_LENGTH: usize = 6;

/// Lifetime of an issued code in the observed configuration.
pub const DEFAULT_TTL_SECONDS: u32 = 300;

/// The four possible results of a verification attempt.
#[derive(Clone, Copy, Debug, PartialEq, Eq, Structural)]
pub enum VerifyOutcome {
    /// The code matched and had not expired; the entry was consumed.
    Valid,
    /// An entry existed but its deadline had passed; the entry was evicted.
    Expired,
    /// No pending code for this key: never issued, already consumed, or
    /// already evicted.
    NoSuchEntry,
    /// An unexpired entry exists but the presented code differs; the entry
    /// stays, allowing a retry.
    Mismatch,
}

struct CodeEntry {
    key: String,
    code: String,
    expires_at: u64,
}

/// In-memory table of pending verification codes, keyed by identity string.
pub struct VerificationStore {
    entries: Vec<CodeEntry>,
}

spec fn seq_wf(s: Seq<CodeEntry>) -> bool {
    forall|i: int, j: int|
        0 <= i < j < s.len() ==> (#[trigger] s[i]).key@ != (#[trigger] s[j]).key@
}

spec fn seq_has(s: Seq<CodeEntry>, k: Seq<char>) -> bool {
    exists|i: int| 0 <= i < s.len() && (#[trigger] s[i]).key@ == k
}

spec fn seq_idx(s: Seq<CodeEntry>, k: Seq<char>) -> int {
    choose|i: int| 0 <= i < s.len() && (#[trigger] s[i]).key@ == k
}

impl VerificationStore {
    /// Keys never repeat among the stored entries.
    pub closed spec fn wf(self) -> bool {
        seq_wf(self.entries@)
    }

    /// Whether a code is currently stored for key `k`.
    pub closed spec fn pending(self, k: Seq<char>) -> bool {
        seq_has(self.entries@, k)
    }

    /// The code stored for key `k` (meaningful only while `pending(k)`).
    pub closed spec fn code_at(self, k: Seq<char>) -> Seq<char> {
        self.entries@[seq_idx(self.entries@, k)].code@
    }

    /// The deadline stored for key `k` (meaningful only while `pending(k)`).
    pub closed spec fn expiry_at(self, k: Seq<char>) -> int {
        self.entries@[seq_idx(self.entries@, k)].expires_at as int
    }

    /// How many codes are pending in all.
    pub closed spec fn pending_count(self) -> nat {
        self.entries@.len()
    }
}

/// Both stores hold exactly the same pending codes and deadlines.
pub open spec fn entries_unchanged(pre: VerificationStore, post: VerificationStore) -> bool {
    forall|k: Seq<char>|
        #![trigger post.pending(k)]
        #![trigger pre.pending(k)]
        post.pending(k) == pre.pending(k) && (pre.pending(k) ==> post.code_at(k)
            == pre.code_at(k) && post.expiry_at(k) == pre.expiry_at(k))
}

/// `post` is `pre` with code `c` and deadline `exp` stored for key `k`,
/// replacing whatever `pre` held for `k`; every other key is untouched.
pub open spec fn issued(
    pre: VerificationStore,
    post: VerificationStore,
    k: Seq<char>,
    c: Seq<char>,
    exp: int,
) -> bool {
    &&& post.pending(k)
    &&& post.code_at(k) == c
    &&& post.expiry_at(k) == exp
    &&& forall|k2: Seq<char>|
        #![trigger post.pending(k2)]
        #![trigger pre.pending(k2)]
        k2 != k ==> post.pending(k2) == pre.pending(k2) && (pre.pending(k2)
            ==> post.code_at(k2) == pre.code_at(k2) && post.expiry_at(k2) == pre.expiry_at(k2))
}

/// `post` is `pre` with the entry for key `k` removed; every other key is
/// untouched.
pub open spec fn consumed(
    pre: VerificationStore,
    post: VerificationStore,
    k: Seq<char>,
) -> bool {
    &&& !post.pending(k)
    &&& forall|k2: Seq<char>|
        #![trigger post.pending(k2)]
        #![trigger pre.pending(k2)]
        k2 != k ==> post.pending(k2) == pre.pending(k2) && (pre.pending(k2)
            ==> post.code_at(k2) == pre.code_at(k2) && post.expiry_at(k2) == pre.expiry_at(k2))
}

/// The outcome a verification of `p` against key `k` at time `now` must
/// yield on store `s`: existence is checked first, then expiry, then
/// equality.
pub open spec fn outcome_of(
    s: VerificationStore,
    k: Seq<char>,
    p: Seq<char>,
    now: int,
) -> VerifyOutcome {
    if !s.pending(k) {
        VerifyOutcome::NoSuchEntry
    } else if now > s.expiry_at(k) {
        VerifyOutcome::Expired
    } else if p == s.code_at(k) {
        VerifyOutcome::Valid
    } else {
        VerifyOutcome::Mismatch
    }
}

/// One verification call: the outcome is determined by the prior store and
/// the clock, and the store is consumed at `k` exactly on `Valid` and
/// `Expired`, untouched otherwise.
pub open spec fn verify_step(
    pre: VerificationStore,
    post: VerificationStore,
    k: Seq<char>,
    p: Seq<char>,
    now: int,
    r: VerifyOutcome,
) -> bool {
    &&& r == outcome_of(pre, k, p, now)
    &&& if r == VerifyOutcome::Valid || r == VerifyOutcome::Expired {
        consumed(pre, post, k)
    } else {
        entries_unchanged(pre, post)
    }
}

/// The deadline a code issued at `now` with lifetime `ttl_seconds` gets:
/// their sum, saturating at the largest representable time.
pub open spec fn expiry_for(now: u64, ttl_seconds: u32) -> int {
    if now + ttl_seconds <= u64::MAX {
        now + ttl_seconds
    } else {
        u64::MAX as int
    }
}

proof fn lemma_unique_index(s: Seq<CodeEntry>, k: Seq<char>, i: int)
    requires
        seq_wf(s),
        0 <= i < s.len(),
        s[i].key@ == k,
    ensures
        seq_has(s, k),
        seq_idx(s, k) == i,
{
    assert(seq_has(s, k));
    let j = seq_idx(s, k);
    assert(0 <= j < s.len() && s[j].key@ == k);
    if i < j {
        assert(s[i].key@ != s[j].key@);
    } else if j < i {
        assert(s[j].key@ != s[i].key@);
    }
}

proof fn lemma_remove_entry(s: Seq<CodeEntry>, i: int)
    requires
        seq_wf(s),
        0 <= i < s.len(),
    ensures
        seq_wf(s.remove(i)),
        !seq_has(s.remove(i), s[i].key@),
        forall|k2: Seq<char>|
            #![trigger seq_has(s.remove(i), k2)]
            #![trigger seq_has(s, k2)]
            k2 != s[i].key@ ==> seq_has(s.remove(i), k2) == seq_has(s, k2) && (seq_has(s, k2)
                ==> s.remove(i)[seq_idx(s.remove(i), k2)] == s[seq_idx(s, k2)]),
{
    let t = s.remove(i);
    let k = s[i].key@;
    assert(t.len() == s.len() - 1);
    assert forall|j: int| 0 <= j < t.len() implies t[j] == (if j < i {
        s[j]
    } else {
        s[j + 1]
    }) by {}
    assert forall|a: int, b: int| 0 <= a < b < t.len() implies t[a].key@ != t[b].key@ by {
        let a0 = if a < i { a } else { a + 1 };
        let b0 = if b < i { b } else { b + 1 };
        assert(s[a0].key@ != s[b0].key@);
    }
    assert forall|j: int| 0 <= j < t.len() implies t[j].key@ != k by {
        let j0 = if j < i { j } else { j + 1 };
        assert(t[j] == s[j0]);
        if j0 != i {
            lemma_unique_index(s, k, i);
            if s[j0].key@ == k {
                lemma_unique_index(s, k, j0);
            }
        }
    }
    assert forall|k2: Seq<char>| k2 != k implies seq_has(t, k2) == seq_has(s, k2) && (seq_has(
        s,
        k2,
    ) ==> t[seq_idx(t, k2)] == s[seq_idx(s, k2)]) by {
        if seq_has(t, k2) {
            let j = seq_idx(t, k2);
            assert(0 <= j < t.len() && t[j].key@ == k2);
            let j0 = if j < i { j } else { j + 1 };
            assert(s[j0].key@ == k2);
            assert(seq_has(s, k2));
        }
        if seq_has(s, k2) {
            let j0 = seq_idx(s, k2);
            assert(0 <= j0 < s.len() && s[j0].key@ == k2);
            assert(j0 != i);
            let j = if j0 < i { j0 } else { j0 - 1 };
            assert(t[j] == s[j0]);
            lemma_unique_index(t, k2, j);
            assert(t[seq_idx(t, k2)] == s[seq_idx(s, k2)]);
        }
    }
}

proof fn lemma_push_entry(s: Seq<CodeEntry>, e: CodeEntry)
    requires
        seq_wf(s),
        !seq_has(s, e.key@),
    ensures
        seq_wf(s.push(e)),
        seq_has(s.push(e), e.key@),
        s.push(e)[seq_idx(s.push(e), e.key@)] == e,
        forall|k2: Seq<char>|
            #![trigger seq_has(s.push(e), k2)]
            #![trigger seq_has(s, k2)]
            k2 != e.key@ ==> seq_has(s.push(e), k2) == seq_has(s, k2) && (seq_has(s, k2)
                ==> s.push(e)[seq_idx(s.push(e), k2)] == s[seq_idx(s, k2)]),
{
    let t = s.push(e);
    assert(t.len() == s.len() + 1);
    assert(t[s.len() as int] == e);
    assert forall|j: int| 0 <= j < s.len() implies t[j] == s[j] by {}
    assert forall|j: int| 0 <= j < s.len() implies s[j].key@ != e.key@ by {
        if s[j].key@ == e.key@ {
            assert(seq_has(s, e.key@));
        }
    }
    assert forall|a: int, b: int| 0 <= a < b < t.len() implies t[a].key@ != t[b].key@ by {
        if b == s.len() {
            assert(t[a] == s[a]);
        } else {
            assert(s[a].key@ != s[b].key@);
        }
    }
    lemma_unique_index(t, e.key@, s.len() as int);
    assert forall|k2: Seq<char>| k2 != e.key@ implies seq_has(t, k2) == seq_has(s, k2) && (
    seq_has(s, k2) ==> t[seq_idx(t, k2)] == s[seq_idx(s, k2)]) by {
        if seq_has(t, k2) {
            let j = seq_idx(t, k2);
            assert(0 <= j < t.len() && t[j].key@ == k2);
            assert(j != s.len());
            assert(s[j].key@ == k2);
            assert(seq_has(s, k2));
        }
        if seq_has(s, k2) {
            let j0 = seq_idx(s, k2);
            assert(0 <= j0 < s.len() && s[j0].key@ == k2);
            assert(t[j0] == s[j0]);
            lemma_unique_index(t, k2, j0);
            lemma_unique_index(s, k2, j0);
        }
    }
}

impl VerificationStore {
    /// An empty store: nothing is pending for any key.
    pub fn new() -> (s: Self)
        ensures
            s.wf(),
            forall|k: Seq<char>| !s.pending(k),
            s.pending_count() == 0,
    {
        VerificationStore { entries: Vec::new() }
    }

    fn find_index(&self, key: &str) -> (r: Option<usize>)
        ensures
            match r {
                Some(i) => i < self.entries@.len() && self.entries@[i as int].key@ == key@,
                None => !self.pending(key@),
            },
    {
        let n = self.entries.len();
        let mut i: usize = 0;
        while i < n
            invariant
                n == self.entries@.len(),
                i <= n,
                forall|j: int| 0 <= j < i ==> (#[trigger] self.entries@[j]).key@ != key@,
            decreases n - i,
        {
            if str_eq(self.entries[i].key.as_str(), key) {
                return Some(i);
            }
            i += 1;
        }
        None
    }

    fn put(&mut self, key: &str, code: String, expires_at: u64)
        requires
            old(self).wf(),
        ensures
            final(self).wf(),
            issued(*old(self), *final(self), key@, code@, expires_at as int),
            final(self).pending_count() == old(self).pending_count() + (if old(self).pending(key@) {
                0int
            } else {
                1int
            }),
    {
        let entry = CodeEntry { key: key.to_owned(), code, expires_at };
        match self.find_index(key) {
            Some(i) => {
                proof {
                    lemma_unique_index(self.entries@, key@, i as int);
                    lemma_remove_entry(self.entries@, i as int);
                }
                self.entries.remove(i);
            },
            None => {},
        }
        proof {
            lemma_push_entry(self.entries@, entry);
        }
        let ghost mid = self.entries@;
        self.entries.push(entry);
        proof {
            lemma_unique_index(self.entries@, key@, mid.len() as int);
        }
    }

    /// Store the given `code` for `key` with deadline `now + ttl_seconds`
    /// (saturating), replacing any prior entry for `key`.
    pub fn issue_code_at(&mut self, key: &str, code: String, ttl_seconds: u32, now: u64)
        requires
            old(self).wf(),
            key@.len() > 0,
            ttl_seconds > 0,
        ensures
            final(self).wf(),
            issued(*old(self), *final(self), key@, code@, expiry_for(now, ttl_seconds)),
            final(self).pending_count() == old(self).pending_count() + (if old(self).pending(key@) {
                0int
            } else {
                1int
            }),
    {
        let expires_at: u64 = if now <= u64::MAX - (ttl_seconds as u64) {
            now + (ttl_seconds as u64)
        } else {
            u64::MAX
        };
        self.put(key, code, expires_at);
    }

    /// Generate a fresh random code, store it for `key` with deadline
    /// `now + ttl_seconds`, and return it.
    pub fn issue_at(&mut self, key: &str, ttl_seconds: u32, now: u64) -> (code: String)
        requires
            old(self).wf(),
            key@.len() > 0,
            ttl_seconds > 0,
        ensures
            final(self).wf(),
            is_code_string(code@, CODE_LENGTH as int),
            issued(*old(self), *final(self), key@, code@, expiry_for(now, ttl_seconds)),
            final(self).pending_count() == old(self).pending_count() + (if old(self).pending(key@) {
                0int
            } else {
                1int
            }),
    {
        let code = codegen::generate(CODE_LENGTH);
        self.issue_code_at(key, code.clone(), ttl_seconds, now);
        code
    }

    /// Generate and store a fresh code for `key` against the system clock.
    /// Whatever the clock read, the new code is the one pending for `key`
    /// afterwards and no other key is touched.
    pub fn issue(&mut self, key: &str, ttl_seconds: u32) -> (code: String)
        requires
            old(self).wf(),
            key@.len() > 0,
            ttl_seconds > 0,
        ensures
            final(self).wf(),
            is_code_string(code@, CODE_LENGTH as int),
            exists|t: u64|
                issued(
                    *old(self),
                    *final(self),
                    key@,
                    code@,
                    #[trigger] expiry_for(t, ttl_seconds),
                ),
    {
        let now = crate::clock::now_seconds();
        let code = self.issue_at(key, ttl_seconds, now);
        proof {
            assert(issued(*old(self), *self, key@, code@, expiry_for(now, ttl_seconds)));
        }
        code
    }

    /// Verify `presented` against the entry for `key` as of time `now`.
    /// Exactly one of the four outcomes results; `Valid` and `Expired`
    /// consume the entry, the other outcomes leave the store as it was.
    pub fn verify_at(&mut self, key: &str, presented: &str, now: u64) -> (r: VerifyOutcome)
        requires
            old(self).wf(),
        ensures
            final(self).wf(),
            verify_step(*old(self), *final(self), key@, presented@, now as int, r),
            (r == VerifyOutcome::Valid || r == VerifyOutcome::Expired)
                ==> final(self).pending_count() == old(self).pending_count() - 1,
            (r == VerifyOutcome::NoSuchEntry || r == VerifyOutcome::Mismatch)
                ==> final(self).pending_count() == old(self).pending_count(),
    {
        match self.find_index(key) {
            None => VerifyOutcome::NoSuchEntry,
            Some(i) => {
                proof {
                    lemma_unique_index(self.entries@, key@, i as int);
                    lemma_remove_entry(self.entries@, i as int);
                }
                if now > self.entries[i].expires_at {
                    self.entries.remove(i);
                    VerifyOutcome::Expired
                } else if str_eq(presented, self.entries[i].code.as_str()) {
                    self.entries.remove(i);
                    VerifyOutcome::Valid
                } else {
                    VerifyOutcome::Mismatch
                }
            },
        }
    }

    /// Verify `presented` against the entry for `key`, reading the system
    /// clock once. Whatever the clock read, the outcome and the store
    /// transition agree with one verification step at that time.
    pub fn verify(&mut self, key: &str, presented: &str) -> (r: VerifyOutcome)
        requires
            old(self).wf(),
        ensures
            final(self).wf(),
            exists|t: u64|
                #![trigger verify_step(*old(self), *final(self), key@, presented@, t as int, r)]
                verify_step(*old(self), *final(self), key@, presented@, t as int, r),
    {
        let now = crate::clock::now_seconds();
        let r = self.verify_at(key, presented, now);
        proof {
            assert(verify_step(*old(self), *self, key@, presented@, now as int, r));
        }
        r
    }
}

} // verus!
