//! Character-level helpers on strings: equality and searching, specified
//! over the `Seq<char>` views.

use vstd::prelude::*;
use vstd::string::StrSliceExecFns;

verus! {

/// Character-by-character string equality.
///
/// The scan always walks the full length of the shorter operand instead of
/// stopping at the first mismatch, so that comparing a presented signature
/// with the expected one does not leak the length of their common prefix
/// through timing.
pub fn str_eq(a: &str, b: &str) -> (r: bool)
    ensures
        r == (a@ == b@),
{
    let na = a.unicode_len();
    let nb = b.unicode_len();
    let mut same = na == nb;
    let n = if na < nb {
        na
    } else {
        nb
    };
    let mut i: usize = 0;
    while i < n
        invariant
            n <= na == a@.len(),
            n <= nb == b@.len(),
            i <= n,
            same == (na == nb && forall|j: int| 0 <= j < i ==> a@[j] == b@[j]),
        decreases n - i,
    {
        let ca = a.get_char(i);
        let cb = b.get_char(i);
        same = same && ca == cb;
        i = i + 1;
    }
    proof {
        if same {
            assert(a@ =~= b@);
        } else {
            if na == nb {
                let j = choose|j: int| 0 <= j < n && a@[j] != b@[j];
                assert(a@[j] != b@[j]);
            }
        }
    }
    same
}

/// The position of the first `'.'` in `s` at or after `from`, if any.
pub fn find_dot(s: &str, from: usize) -> (r: Option<usize>)
    requires
        from <= s@.len(),
    ensures
        match r {
            Some(i) => from <= i < s@.len() && s@[i as int] == '.' && forall|j: int|
                from <= j < i ==> s@[j] != '.',
            None => forall|j: int| from <= j < s@.len() ==> s@[j] != '.',
        },
{
    let n = s.unicode_len();
    let mut i: usize = from;
    while i < n
        invariant
            from <= i <= n == s@.len(),
            forall|j: int| from <= j < i ==> s@[j] != '.',
        decreases n - i,
    {
        if s.get_char(i) == '.' {
            return Some(i);
        }
        i = i + 1;
    }
    None
}

} // verus!
