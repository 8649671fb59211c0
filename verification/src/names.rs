//! Deriving sibling and destination file names from a stream's file name.
//!
//! A stream's chat log and metadata live beside it under the same stem
//! with fixed alternate extensions. A rename destination keeps a name's
//! extension — everything after the first `.`, so multi-part extensions
//! like `txt.zst` survive — and substitutes a freshly derived base name.

use vstd::prelude::*;

use crate::parse::stem_of;

verus! {

/// Index of the first `.` in `s[i..]`, or `-1` if there is none.
pub open spec fn first_dot_from(s: Seq<char>, i: int) -> int
    decreases s.len() - i,
{
    if i < 0 || i >= s.len() {
        -1
    } else if s[i] == '.' {
        i
    } else {
        first_dot_from(s, i + 1)
    }
}

pub open spec fn has_dot(s: Seq<char>) -> bool {
    first_dot_from(s, 0) >= 0
}

/// `base`, a `.`, and everything of `old` after its first `.`.
pub open spec fn mapped_name_chars(old: Seq<char>, base: Seq<char>) -> Seq<char> {
    base + seq!['.'] + old.subrange(first_dot_from(old, 0) + 1, old.len() as int)
}

/// The stem of `s` with `ext` as its extension.
pub open spec fn sibling_name_chars(s: Seq<char>, ext: Seq<char>) -> Seq<char> {
    stem_of(s) + seq!['.'] + ext
}

proof fn lemma_first_dot_in_range(s: Seq<char>, i: int, j: int)
    requires
        0 <= i <= j < s.len(),
        s[j] == '.',
    ensures
        i <= first_dot_from(s, i) <= j,
    decreases j - i,
{
    if s[i] != '.' {
        lemma_first_dot_in_range(s, i + 1, j);
    }
}

/// A name of the form `stem.ext` has a dot, so a destination name can be
/// derived from it.
pub proof fn lemma_sibling_name_has_dot(s: Seq<char>, ext: Seq<char>)
    ensures
        has_dot(sibling_name_chars(s, ext)),
{
    let n = sibling_name_chars(s, ext);
    let j = stem_of(s).len() as int;
    assert(n[j] == '.');
    lemma_first_dot_in_range(n, 0, j);
}

/// Keeps the directory-free name's extension (everything after the first
/// `.`) and substitutes `base` for what precedes it; `None` when `old` has
/// no `.` at all.
pub fn map_name(old: &str, base: &str) -> (r: Option<String>)
    ensures
        match r {
            Some(s) => has_dot(old@) && s@ == mapped_name_chars(old@, base@),
            None => !has_dot(old@),
        },
{
    let len = old.unicode_len();
    let mut i: usize = 0;
    while i < len && old.get_char(i) != '.'
        invariant
            i <= len,
            len == old@.len(),
            first_dot_from(old@, 0) == first_dot_from(old@, i as int),
        decreases len - i,
    {
        i = i + 1;
    }
    if i == len {
        return None;
    }
    let ext = old.substring_char(i + 1, len);
    let mut r = String::from_str(base);
    proof {
        reveal_strlit(".");
    }
    r.append(".");
    r.append(ext);
    proof {
        assert(r@ =~= mapped_name_chars(old@, base@));
    }
    Some(r)
}

/// The name `s` with its extension replaced by `ext`, as a rename target
/// for a sibling artifact file.
pub fn sibling_name(s: &str, ext: &str) -> (r: String)
    ensures
        r@ == sibling_name_chars(s@, ext@),
{
    let n = crate::parse::stem_len(s);
    let stem = s.substring_char(0, n);
    let mut r = String::from_str(stem);
    proof {
        reveal_strlit(".");
    }
    r.append(".");
    r.append(ext);
    proof {
        assert(r@ =~= sibling_name_chars(s@, ext@));
    }
    r
}

} // verus!
