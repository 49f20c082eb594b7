//! Small operations on strings, stated over their character sequences.

use vstd::prelude::*;
use vstd::string::StrSliceExecFns;
use vstd::string::StringExecFns;

verus! {

/// Index at which the last `/`-separated segment of `s` starts: one past the
/// last `/`, or 0 where `s` holds none.
pub open spec fn segment_start(s: Seq<char>) -> int
    decreases s.len(),
{
    if s.len() == 0 {
        0
    } else if s.last() == '/' {
        s.len() as int
    } else {
        segment_start(s.drop_last())
    }
}

/// What follows the last `/` of `s`; all of `s` where it holds none.
pub open spec fn last_segment(s: Seq<char>) -> Seq<char> {
    s.subrange(segment_start(s), s.len() as int)
}

/// The four characters `.git`.
pub open spec fn git_suffix() -> Seq<char> {
    seq!['.', 'g', 'i', 't']
}

/// Whether `s` ends in `.git`.
pub open spec fn has_git_suffix(s: Seq<char>) -> bool {
    s.len() >= 4 && s.subrange(s.len() - 4, s.len() as int) == git_suffix()
}

/// `s` without a trailing `.git`, if it has one.
pub open spec fn strip_git_suffix(s: Seq<char>) -> Seq<char> {
    if has_git_suffix(s) {
        s.subrange(0, s.len() - 4)
    } else {
        s
    }
}

/// `segment_start` is characterised by two facts: a `/` stands just
/// before it, or it is 0, and no `/` follows.
pub proof fn lemma_segment_start(s: Seq<char>, k: int)
    requires
        0 <= k <= s.len(),
        k == 0 || s[k - 1] == '/',
        forall|j: int| k <= j < s.len() ==> s[j] != '/',
    ensures
        segment_start(s) == k,
    decreases s.len(),
{
    if s.len() == 0 {
    } else if s.last() == '/' {
    } else {
        lemma_segment_start(s.drop_last(), k);
    }
}

/// The last segment holds no `/`, and is the whole string where that holds none.
pub proof fn lemma_last_segment(s: Seq<char>)
    ensures
        0 <= segment_start(s) <= s.len(),
        segment_start(s) == 0 || s[segment_start(s) - 1] == '/',
        forall|j: int| segment_start(s) <= j < s.len() ==> s[j] != '/',
        !last_segment(s).contains('/'),
        !s.contains('/') ==> last_segment(s) == s,
    decreases s.len(),
{
    if s.len() == 0 {
    } else if s.last() == '/' {
    } else {
        let front = s.drop_last();
        lemma_last_segment(front);
        assert forall|j: int| segment_start(s) <= j < s.len() implies s[j] != '/' by {
            if j < front.len() {
                assert(front[j] == s[j]);
            }
        }
    }
    let tail = last_segment(s);
    if tail.contains('/') {
        let i = choose|i: int| 0 <= i < tail.len() && tail[i] == '/';
        assert(s[segment_start(s) + i] == '/');
    }
    if !s.contains('/') {
        if segment_start(s) != 0 {
            assert(s.contains(s[segment_start(s) - 1]));
        }
        assert(tail =~= s);
    }
}

/// A fresh copy of `s`.
pub fn copy_str(s: &str) -> (r: String)
    ensures
        r@ == s@,
{
    String::from_str(s)
}

/// `a` followed by `b`.
pub fn joined(a: &str, b: &str) -> (r: String)
    ensures
        r@ == a@ + b@,
{
    let mut r = String::from_str(a);
    r.append(b);
    r
}

/// The characters of `s` from `from` up to `to`.
pub fn slice_chars(s: &str, from: usize, to: usize) -> (r: String)
    requires
        from <= to <= s@.len(),
    ensures
        r@ == s@.subrange(from as int, to as int),
{
    String::from_str(s.substring_char(from, to))
}

/// Position at which the last `/`-separated segment of `s` starts.
pub fn find_segment_start(s: &str) -> (k: usize)
    ensures
        k == segment_start(s@),
        k <= s@.len(),
{
    let n: usize = s.unicode_len();
    let mut k: usize = n;
    while k > 0 && s.get_char(k - 1) != '/'
        invariant
            k <= n,
            n == s@.len(),
            forall|j: int| k <= j < n ==> s@[j] != '/',
        decreases k,
    {
        k = k - 1;
    }
    proof {
        lemma_segment_start(s@, k as int);
    }
    k
}

/// Whether `s` ends in `.git`.
pub fn ends_with_git(s: &str) -> (b: bool)
    ensures
        b == has_git_suffix(s@),
{
    let n: usize = s.unicode_len();
    if n < 4 {
        return false;
    }
    let b = s.get_char(n - 4) == '.' && s.get_char(n - 3) == 'g' && s.get_char(n - 2) == 'i'
        && s.get_char(n - 1) == 't';
    proof {
        let tail = s@.subrange(n - 4, n as int);
        if b {
            assert(tail =~= git_suffix());
        } else {
            assert(tail[0] == s@[n - 4]);
            assert(tail[1] == s@[n - 3]);
            assert(tail[2] == s@[n - 2]);
            assert(tail[3] == s@[n - 1]);
        }
    }
    b
}

} // verus!
