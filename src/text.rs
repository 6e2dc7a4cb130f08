//! Matching literal text inside a string.
use vstd::prelude::*;

verus! {

/// The text `t` stands in `s` at position `i`.
pub open spec fn text_at(s: Seq<char>, i: int, t: Seq<char>) -> bool {
    0 <= i && i + t.len() <= s.len() && s.subrange(i, i + t.len()) == t
}

/// Whether the literal `t` stands in `s` at position `i`.
pub fn has_text(s: &str, len: usize, i: usize, t: &str) -> (r: bool)
    requires
        len == s@.len(),
        i <= len,
    ensures
        r == text_at(s@, i as int, t@),
{
    let t_len = t.unicode_len();
    if t_len > len - i {
        return false;
    }
    let mut k: usize = 0;
    while k < t_len
        invariant
            len == s@.len(),
            t_len == t@.len(),
            i + t_len <= len,
            k <= t_len,
            forall|j: int| 0 <= j < k ==> s@[i + j] == t@[j],
        decreases t_len - k,
    {
        if s.get_char(i + k) != t.get_char(k) {
            assert(s@.subrange(i as int, i + t_len)[k as int] != t@[k as int]);
            return false;
        }
        k = k + 1;
    }
    assert(s@.subrange(i as int, i + t_len) =~= t@);
    true
}

/// Whether `s` is the text `t`.
pub fn is_text(s: &str, t: &str) -> (r: bool)
    ensures
        r == (s@ == t@),
{
    let len = s.unicode_len();
    if len != t.unicode_len() {
        return false;
    }
    let r = has_text(s, len, 0, t);
    assert(s@.subrange(0, len as int) =~= s@);
    r
}

} // verus!
