//! Character-level reasoning about slash-separated path strings: substring
//! search, path components, file names and extensions.
//!
//! Paths are plain strings whose components are separated by `/`.  No
//! normalisation (of `.` or `..`) is attempted; the traversal hands the
//! library paths relative to the traversal root.
use vstd::prelude::*;
use vstd::string::StrSliceExecFns;

verus! {

/// The pattern `p` occurs in `s` starting at position `i`.
pub open spec fn contains_at(s: Seq<char>, p: Seq<char>, i: int) -> bool {
    &&& 0 <= i
    &&& i + p.len() <= s.len()
    &&& s.subrange(i, i + p.len() as int) == p
}

/// The pattern `p` occurs somewhere in `s`.
pub open spec fn contains_seq(s: Seq<char>, p: Seq<char>) -> bool {
    exists|i: int| contains_at(s, p, i)
}

/// Whether `p` occurs in `s` at position `i` exactly.
fn matches_at(s: &str, p: &str, i: usize) -> (r: bool)
    requires
        i + p@.len() <= s@.len(),
    ensures
        r == contains_at(s@, p@, i as int),
{
    let s_len = s.unicode_len();
    let p_len = p.unicode_len();
    let mut j: usize = 0;
    while j < p_len
        invariant
            j <= p_len,
            p_len == p@.len(),
            s_len == s@.len(),
            i + p_len <= s_len,
            forall|k: int| 0 <= k < j ==> s@[i + k] == p@[k],
        decreases p_len - j,
    {
        if s.get_char(i + j) != p.get_char(j) {
            assert(s@.subrange(i as int, i + p@.len() as int)[j as int] != p@[j as int]);
            return false;
        }
        j = j + 1;
    }
    assert(s@.subrange(i as int, i + p@.len() as int) =~= p@);
    true
}

/// Whether the pattern `p` occurs anywhere in `s`, as a contiguous run of
/// characters.
pub fn contains_str(s: &str, p: &str) -> (r: bool)
    ensures
        r == contains_seq(s@, p@),
{
    let s_len = s.unicode_len();
    let p_len = p.unicode_len();
    if p_len > s_len {
        assert(forall|i: int| !contains_at(s@, p@, i));
        return false;
    }
    if p_len == 0 {
        assert(s@.subrange(0, 0) =~= p@);
        assert(contains_at(s@, p@, 0));
        return true;
    }
    let mut i: usize = 0;
    while i <= s_len - p_len
        invariant
            0 < p_len <= s_len,
            s_len == s@.len(),
            p_len == p@.len(),
            i <= s_len - p_len + 1,
            forall|k: int| 0 <= k < i ==> !contains_at(s@, p@, k),
        decreases s_len - i,
    {
        if matches_at(s, p, i) {
            return true;
        }
        i = i + 1;
    }
    assert(forall|k: int| contains_at(s@, p@, k) ==> 0 <= k < i);
    false
}

/// Positions `i..j` delimit one whole component of the path `p`: a maximal
/// run free of separators, bounded by the ends of the path or by `/`.
pub open spec fn component_at(p: Seq<char>, i: int, j: int) -> bool {
    &&& 0 <= i <= j <= p.len()
    &&& (i == 0 || p[i - 1] == '/')
    &&& (j == p.len() || p[j] == '/')
    &&& forall|k: int| i <= k < j ==> p[k] != '/'
}

/// The index right after the last separator of `p`; `0` when `p` holds no
/// separator.  The file name of `p` runs from here to the end.
pub open spec fn file_name_start(p: Seq<char>) -> int
    decreases p.len(),
{
    if p.len() == 0 {
        0
    } else if p[p.len() - 1] == '/' {
        p.len() as int
    } else {
        file_name_start(p.drop_last())
    }
}

/// The last component of `p`: everything after the last separator.
pub open spec fn file_name_of(p: Seq<char>) -> Seq<char> {
    p.subrange(file_name_start(p), p.len() as int)
}

/// `file_name_start` of a path is settled by its prefix once the dropped
/// suffix holds no separator.
proof fn lemma_file_name_start_extend(p: Seq<char>, k: int)
    requires
        0 <= k <= p.len(),
        forall|t: int| k <= t < p.len() ==> p[t] != '/',
    ensures
        file_name_start(p) == file_name_start(p.take(k)),
    decreases p.len() - k,
{
    if k < p.len() {
        lemma_file_name_start_extend(p, k + 1);
        assert(p.take(k + 1).drop_last() =~= p.take(k));
        assert(p.take(k + 1)[k] != '/');
    } else {
        assert(p.take(k) =~= p);
    }
}

/// The index right after the last separator of `p`, found by scanning
/// backwards.
pub fn find_file_name_start(p: &str) -> (r: usize)
    ensures
        r == file_name_start(p@),
        r <= p@.len(),
{
    let len = p.unicode_len();
    let mut k: usize = len;
    while k > 0
        invariant
            k <= len,
            len == p@.len(),
            forall|t: int| k <= t < p@.len() ==> p@[t] != '/',
        decreases k,
    {
        if p.get_char(k - 1) == '/' {
            proof {
                lemma_file_name_start_extend(p@, k as int);
                assert(file_name_start(p@.take(k as int)) == k as int);
            }
            return k;
        }
        k = k - 1;
    }
    proof {
        lemma_file_name_start_extend(p@, 0);
        assert(p@.take(0) =~= Seq::<char>::empty());
    }
    0
}

/// The index right after the last `.` of the file name `n`; `0` when `n`
/// holds no dot.
pub open spec fn after_last_dot(n: Seq<char>) -> int
    decreases n.len(),
{
    if n.len() == 0 {
        0
    } else if n[n.len() - 1] == '.' {
        n.len() as int
    } else {
        after_last_dot(n.drop_last())
    }
}

proof fn lemma_after_last_dot_extend(n: Seq<char>, k: int)
    requires
        0 <= k <= n.len(),
        forall|t: int| k <= t < n.len() ==> n[t] != '.',
    ensures
        after_last_dot(n) == after_last_dot(n.take(k)),
    decreases n.len() - k,
{
    if k < n.len() {
        lemma_after_last_dot_extend(n, k + 1);
        assert(n.take(k + 1).drop_last() =~= n.take(k));
        assert(n.take(k + 1)[k] != '.');
    } else {
        assert(n.take(k) =~= n);
    }
}

/// The index right after the last `.` of `n`, found by scanning backwards.
pub fn find_after_last_dot(n: &str) -> (r: usize)
    ensures
        r == after_last_dot(n@),
        r <= n@.len(),
{
    let len = n.unicode_len();
    let mut k: usize = len;
    while k > 0
        invariant
            k <= len,
            len == n@.len(),
            forall|t: int| k <= t < n@.len() ==> n@[t] != '.',
        decreases k,
    {
        if n.get_char(k - 1) == '.' {
            proof {
                lemma_after_last_dot_extend(n@, k as int);
                assert(after_last_dot(n@.take(k as int)) == k as int);
            }
            return k;
        }
        k = k - 1;
    }
    proof {
        lemma_after_last_dot_extend(n@, 0);
        assert(n@.take(0) =~= Seq::<char>::empty());
    }
    0
}

} // verus!
