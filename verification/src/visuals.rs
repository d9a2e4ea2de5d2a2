//! Colour variant and label assignment for module icons: each distinct
//! normalized module code gets the next variant of a fixed palette, handed
//! out round-robin, and keeps it for the life of the state; the label is the
//! code's first three alphanumeric characters, upper-cased, or a fixed
//! placeholder when it has none.

use vstd::prelude::*;
use crate::text::{ascii_bytes_to_string, chars_of_bytes, str_eq, trim_of, trimmed, upper_of,
    uppercased};

verus! {

/// How many colour variants the palette holds.
pub const VARIANT_COUNT: usize = 8;

/// The palette entry at position `i`.
pub open spec fn variant_of(i: int) -> Seq<char> {
    if i == 0 {
        "mod-purp"@
    } else if i == 1 {
        "mod-blue"@
    } else if i == 2 {
        "mod-orange"@
    } else if i == 3 {
        "mod-green"@
    } else if i == 4 {
        "mod-rose"@
    } else if i == 5 {
        "mod-teal"@
    } else if i == 6 {
        "mod-amber"@
    } else {
        "mod-slate"@
    }
}

/// The palette entry at position `i`.
pub fn variant_name(i: usize) -> (r: &'static str)
    requires
        i < VARIANT_COUNT,
    ensures
        r@ == variant_of(i as int),
{
    if i == 0 {
        "mod-purp"
    } else if i == 1 {
        "mod-blue"
    } else if i == 2 {
        "mod-orange"
    } else if i == 3 {
        "mod-green"
    } else if i == 4 {
        "mod-rose"
    } else if i == 5 {
        "mod-teal"
    } else if i == 6 {
        "mod-amber"
    } else {
        "mod-slate"
    }
}

/// An ASCII letter or digit.
pub open spec fn is_label_char(c: char) -> bool {
    (48 <= c as u32 <= 57) || (65 <= c as u32 <= 90) || (97 <= c as u32 <= 122)
}

/// The ASCII upper-case image of `c`: lower-case ASCII letters move up,
/// everything else stays.
pub open spec fn upper_label_char(c: char) -> char {
    if 97 <= c as u32 <= 122 {
        ((c as u32 - 32) as char)
    } else {
        c
    }
}

pub open spec fn label_core(s: Seq<char>) -> Seq<char>
    decreases s.len(),
{
    if s.len() == 0 {
        Seq::empty()
    } else {
        let p = label_core(s.drop_last());
        if p.len() < 3 && is_label_char(s.last()) {
            p.push(upper_label_char(s.last()))
        } else {
            p
        }
    }
}

/// The icon label for a normalized module code: its first three ASCII
/// alphanumeric characters, upper-cased, or `"MOD"` when there are none.
pub open spec fn label_of(s: Seq<char>) -> Seq<char> {
    if label_core(s).len() == 0 {
        "MOD"@
    } else {
        label_core(s)
    }
}

/// Colour variant and icon label derived for one module code.
pub struct ModuleVisual {
    pub variant: &'static str,
    pub label: String,
}

struct Assignment {
    key: String,
    index: usize,
}

/// Which palette position each module code was given, and which position the
/// next new code will get.
pub struct ModuleColorState {
    assignments: Vec<Assignment>,
    next_index: usize,
}

spec fn a_wf(s: Seq<Assignment>, bound: int) -> bool {
    &&& forall|i: int, j: int|
        0 <= i < j < s.len() ==> (#[trigger] s[i]).key@ != (#[trigger] s[j]).key@
    &&& forall|i: int| 0 <= i < s.len() ==> (#[trigger] s[i]).index < bound
}

spec fn a_has(s: Seq<Assignment>, k: Seq<char>) -> bool {
    exists|i: int| 0 <= i < s.len() && (#[trigger] s[i]).key@ == k
}

spec fn a_idx(s: Seq<Assignment>, k: Seq<char>) -> int {
    choose|i: int| 0 <= i < s.len() && (#[trigger] s[i]).key@ == k
}

impl ModuleColorState {
    /// Keys never repeat, every stored position is inside the palette, and so
    /// is the next position to hand out.
    pub closed spec fn wf(self) -> bool {
        &&& a_wf(self.assignments@, VARIANT_COUNT as int)
        &&& self.next_index < VARIANT_COUNT
    }

    /// Whether module code `k` has been given a palette position.
    pub closed spec fn assigned(self, k: Seq<char>) -> bool {
        a_has(self.assignments@, k)
    }

    /// The palette position of module code `k` (meaningful only while
    /// `assigned(k)`).
    pub closed spec fn index_of(self, k: Seq<char>) -> int {
        self.assignments@[a_idx(self.assignments@, k)].index as int
    }

    /// The palette position the next new module code will get.
    pub closed spec fn next(self) -> int {
        self.next_index as int
    }

    /// A fresh state: nothing assigned, the palette starts at its first
    /// entry.
    pub fn new() -> (s: Self)
        ensures
            s.wf(),
            forall|k: Seq<char>| !s.assigned(k),
            s.next() == 0,
    {
        ModuleColorState { assignments: Vec::new(), next_index: 0 }
    }

    fn find(&self, key: &str) -> (r: Option<usize>)
        ensures
            match r {
                Some(i) => i < self.assignments@.len() && self.assignments@[i as int].key@
                    == key@,
                None => !self.assigned(key@),
            },
    {
        let n = self.assignments.len();
        let mut i: usize = 0;
        while i < n
            invariant
                n == self.assignments@.len(),
                i <= n,
                forall|j: int| 0 <= j < i ==> (#[trigger] self.assignments@[j]).key@ != key@,
            decreases n - i,
        {
            if str_eq(self.assignments[i].key.as_str(), key) {
                return Some(i);
            }
            i += 1;
        }
        None
    }

    /// Return the palette position already given to `key`, or hand out the
    /// next position and advance the palette cursor cyclically.
    pub fn get_or_assign(&mut self, key: &str) -> (idx: usize)
        requires
            old(self).wf(),
        ensures
            final(self).wf(),
            color_step(*old(self), *final(self), key@, idx as int),
    {
        match self.find(key) {
            Some(i) => {
                proof {
                    let s = self.assignments@;
                    let j = a_idx(s, key@);
                    assert(0 <= j < s.len() && s[j].key@ == key@);
                    if i < j {
                        assert(s[i as int].key@ != s[j].key@);
                    } else if j < i {
                        assert(s[j].key@ != s[i as int].key@);
                    }
                }
                self.assignments[i].index
            },
            None => {
                let idx = self.next_index;
                let ghost s = self.assignments@;
                let entry = Assignment { key: key.to_owned(), index: idx };
                self.assignments.push(entry);
                self.next_index = if self.next_index + 1 < VARIANT_COUNT {
                    self.next_index + 1
                } else {
                    0
                };
                proof {
                    let t = self.assignments@;
                    assert(t[s.len() as int] == entry);
                    assert(forall|j: int| 0 <= j < s.len() ==> t[j] == s[j]);
                    assert forall|j: int| 0 <= j < s.len() implies (#[trigger] s[j]).key@
                        != key@ by {
                        if s[j].key@ == key@ {
                            assert(a_has(s, key@));
                        }
                    }
                    assert forall|a: int, b: int| 0 <= a < b < t.len() implies (
                    #[trigger] t[a]).key@ != (#[trigger] t[b]).key@ by {
                        if b == s.len() {
                            assert(t[a] == s[a]);
                        } else {
                            assert(s[a].key@ != s[b].key@);
                        }
                    }
                    assert(t[s.len() as int].key@ == key@);
                    assert(a_has(t, key@));
                    let j = a_idx(t, key@);
                    assert(0 <= j < t.len() && t[j].key@ == key@);
                    if j < s.len() {
                        assert(s[j].key@ != key@);
                    }
                    assert(self.index_of(key@) == idx as int);
                    assert forall|k2: Seq<char>| k2 != key@ implies #[trigger] self.assigned(k2)
                        == a_has(s, k2) && (a_has(s, k2) ==> self.index_of(k2)
                        == s[a_idx(s, k2)].index as int) by {
                        if a_has(t, k2) {
                            let j2 = a_idx(t, k2);
                            assert(0 <= j2 < t.len() && t[j2].key@ == k2);
                            assert(j2 != s.len());
                            assert(s[j2].key@ == k2);
                            assert(a_has(s, k2));
                        }
                        if a_has(s, k2) {
                            let j0 = a_idx(s, k2);
                            assert(0 <= j0 < s.len() && s[j0].key@ == k2);
                            assert(t[j0] == s[j0]);
                            assert(a_has(t, k2));
                            let j2 = a_idx(t, k2);
                            assert(0 <= j2 < t.len() && t[j2].key@ == k2);
                            if j2 < j0 {
                                assert(t[j2].key@ != t[j0].key@);
                            } else if j0 < j2 {
                                assert(t[j0].key@ != t[j2].key@);
                            }
                        }
                    }
                }
                idx
            },
        }
    }
}

/// One `get_or_assign` call: a known key answers with its stored position
/// and changes nothing; a new key gets the next position, the cursor moves
/// on cyclically, and no other key is touched.
pub open spec fn color_step(
    pre: ModuleColorState,
    post: ModuleColorState,
    k: Seq<char>,
    idx: int,
) -> bool {
    &&& 0 <= idx < VARIANT_COUNT
    &&& if pre.assigned(k) {
        idx == pre.index_of(k) && post == pre
    } else {
        &&& idx == pre.next()
        &&& post.assigned(k)
        &&& post.index_of(k) == idx
        &&& post.next() == (pre.next() + 1) % (VARIANT_COUNT as int)
        &&& forall|k2: Seq<char>|
            #![trigger post.assigned(k2)]
            #![trigger pre.assigned(k2)]
            k2 != k ==> post.assigned(k2) == pre.assigned(k2) && (pre.assigned(k2)
                ==> post.index_of(k2) == pre.index_of(k2))
    }
}

/// The palette position a `get_or_assign` call for `k` on state `pre` must
/// answer with.
pub open spec fn color_index(pre: ModuleColorState, k: Seq<char>) -> int {
    if pre.assigned(k) {
        pre.index_of(k)
    } else {
        pre.next()
    }
}

fn build_label(normalized: &str) -> (r: String)
    ensures
        r@ == label_of(normalized@),
{
    let n = normalized.unicode_len();
    let mut bytes: Vec<u8> = Vec::new();
    let mut i: usize = 0;
    while i < n
        invariant
            i <= n,
            n == normalized@.len(),
            chars_of_bytes(bytes@) == label_core(normalized@.take(i as int)),
            bytes@.len() <= 3,
            forall|j: int| 0 <= j < bytes@.len() ==> bytes@[j] < 128,
        decreases n - i,
    {
        let ghost prefix = normalized@.take(i as int);
        let ghost prev = bytes@;
        let c = normalized.get_char(i);
        let u = c as u32;
        if bytes.len() < 3 {
            if (48 <= u && u <= 57) || (65 <= u && u <= 90) {
                bytes.push(u as u8);
                proof {
                    assert(u < 128);
                    assert((u as u8) as char == c) by {
                        assert((u as u8) as u32 == u);
                        assert((c as u32) as char == c);
                    }
                }
            } else if 97 <= u && u <= 122 {
                bytes.push((u - 32) as u8);
                proof {
                    assert(((u - 32) as u8) as char == upper_label_char(c)) by {
                        assert(((u - 32) as u8) as u32 == u - 32);
                    }
                }
            }
        }
        proof {
            let longer = normalized@.take(i + 1 as int);
            assert(longer.drop_last() =~= prefix);
            assert(longer.last() == normalized@[i as int]);
            assert(chars_of_bytes(bytes@) =~= label_core(longer));
        }
        i += 1;
    }
    proof {
        assert(normalized@.take(n as int) =~= normalized@);
    }
    if bytes.len() == 0 {
        let r = "MOD".to_owned();
        r
    } else {
        ascii_bytes_to_string(bytes)
    }
}

/// Derive the colour variant and icon label for `module_code`, assigning a
/// palette position to its normalized form the first time it is seen.
pub fn module_visual(state: &mut ModuleColorState, module_code: &str) -> (v: ModuleVisual)
    requires
        old(state).wf(),
    ensures
        final(state).wf(),
        color_step(
            *old(state),
            *final(state),
            upper_of(trim_of(module_code@)),
            color_index(*old(state), upper_of(trim_of(module_code@))),
        ),
        v.variant@ == variant_of(color_index(*old(state), upper_of(trim_of(module_code@)))),
        v.label@ == label_of(upper_of(trim_of(module_code@))),
{
    let normalized = uppercased(trimmed(module_code));
    let idx = state.get_or_assign(normalized.as_str());
    let variant = variant_name(idx);
    let label = build_label(normalized.as_str());
    ModuleVisual { variant, label }
}

} // verus!
