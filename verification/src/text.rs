//! Character-level text helpers shared by the front-matter parser, the
//! shortcode expander and the route functions. All scanning is done over
//! `Vec<char>` so that positions are character indices, not byte offsets.
use vstd::prelude::*;

verus! {

/// Relies on `str::chars` yielding exactly the characters of the string.
#[verifier::external_body]
pub(crate) fn to_chars(s: &str) -> (r: Vec<char>)
    ensures
        r@ == s@,
{
    s.chars().collect()
}

/// Relies on `String: FromIterator<char>` collecting exactly the characters
/// given, in order.
#[verifier::external_body]
pub(crate) fn string_of(cs: Vec<char>) -> (r: String)
    ensures
        r@ == cs@,
{
    cs.into_iter().collect()
}

/// Copies the character range `[a, b)`.
pub(crate) fn subvec(cs: &Vec<char>, a: usize, b: usize) -> (r: Vec<char>)
    requires
        a <= b <= cs@.len(),
    ensures
        r@ == cs@.subrange(a as int, b as int),
{
    let mut out: Vec<char> = Vec::new();
    let mut i: usize = a;
    while i < b
        invariant
            a <= i <= b <= cs@.len(),
            out@ =~= cs@.subrange(a as int, i as int),
        decreases b - i,
    {
        out.push(cs[i]);
        i = i + 1;
    }
    proof {
        assert(out@ =~= cs@.subrange(a as int, b as int));
    }
    out
}

/// Whether `pat` occurs in `cs` starting at position `p`.
pub open spec fn matches_at(cs: Seq<char>, p: int, pat: Seq<char>) -> bool {
    0 <= p && p + pat.len() <= cs.len() && cs.subrange(p, p + pat.len()) == pat
}

/// Decides `matches_at` executably.
pub(crate) fn check_match_at(cs: &Vec<char>, p: usize, pat: &Vec<char>) -> (r: bool)
    requires
        p <= cs@.len(),
    ensures
        r == matches_at(cs@, p as int, pat@),
{
    if cs.len() - p < pat.len() {
        return false;
    }
    let mut j: usize = 0;
    while j < pat.len()
        invariant
            j <= pat@.len(),
            p + pat@.len() <= cs@.len(),
            forall|l: int| 0 <= l < j ==> cs@[p + l] == pat@[l],
        decreases pat@.len() - j,
    {
        assert(p + j < cs.len());
        if cs[p + j] != pat[j] {
            proof {
                assert(cs@.subrange(p as int, p + pat@.len())[j as int] != pat@[j as int]);
            }
            return false;
        }
        j = j + 1;
    }
    proof {
        assert(cs@.subrange(p as int, p + pat@.len()) =~= pat@);
    }
    true
}

/// The whitespace characters trimmed from around a document body: the
/// Unicode `White_Space` set, as `char::is_whitespace` defines it.
pub open spec fn is_space(c: char) -> bool {
    let u = c as u32;
    (9 <= u && u <= 13) || u == 32 || u == 0x85 || u == 0xA0 || u == 0x1680 || (0x2000 <= u && u
        <= 0x200A) || u == 0x2028 || u == 0x2029 || u == 0x202F || u == 0x205F || u == 0x3000
}

/// Index of the first non-whitespace character at or after `i` (the length if
/// there is none).
pub open spec fn first_non_space(s: Seq<char>, i: int) -> int
    decreases s.len() - i,
{
    if i < 0 || i >= s.len() {
        s.len() as int
    } else if !is_space(s[i]) {
        i
    } else {
        first_non_space(s, i + 1)
    }
}

/// One past the index of the last non-whitespace character strictly before
/// `j` (zero if there is none).
pub open spec fn last_non_space(s: Seq<char>, j: int) -> int
    decreases j,
{
    if j <= 0 || j > s.len() {
        0
    } else if !is_space(s[j - 1]) {
        j
    } else {
        last_non_space(s, j - 1)
    }
}

/// The sequence with surrounding whitespace removed.
pub open spec fn trim_spec(s: Seq<char>) -> Seq<char> {
    let a = first_non_space(s, 0);
    let b = last_non_space(s, s.len() as int);
    if a < b {
        s.subrange(a, b)
    } else {
        Seq::empty()
    }
}

proof fn lemma_first_non_space_bounds(s: Seq<char>, i: int)
    requires
        0 <= i <= s.len(),
    ensures
        i <= first_non_space(s, i) <= s.len(),
    decreases s.len() - i,
{
    if i < s.len() && is_space(s[i]) {
        lemma_first_non_space_bounds(s, i + 1);
    }
}

proof fn lemma_last_non_space_bounds(s: Seq<char>, j: int)
    requires
        0 <= j <= s.len(),
    ensures
        0 <= last_non_space(s, j) <= j,
    decreases j,
{
    if j > 0 && is_space(s[j - 1]) {
        lemma_last_non_space_bounds(s, j - 1);
    }
}

/// Removes leading and trailing whitespace characters.
pub(crate) fn trim_chars(cs: &Vec<char>) -> (r: Vec<char>)
    ensures
        r@ == trim_spec(cs@),
{
    let n: usize = cs.len();
    let mut a: usize = 0;
    while a < n && is_space_exec(cs[a])
        invariant
            0 <= a <= n,
            n == cs@.len(),
            first_non_space(cs@, 0) == first_non_space(cs@, a as int),
        decreases n - a,
    {
        a = a + 1;
    }
    proof {
        lemma_first_non_space_bounds(cs@, a as int);
        assert(first_non_space(cs@, 0) == a as int);
    }
    let mut b: usize = n;
    while b > a && is_space_exec(cs[b - 1])
        invariant
            a <= b <= n,
            n == cs@.len(),
            a as int == first_non_space(cs@, 0),
            last_non_space(cs@, n as int) == last_non_space(cs@, b as int),
        decreases b,
    {
        b = b - 1;
    }
    proof {
        if b > a {
            assert(last_non_space(cs@, n as int) == b as int);
        } else {
            lemma_last_non_space_bounds(cs@, b as int);
            assert(cs@.subrange(a as int, b as int) =~= Seq::<char>::empty());
        }
    }
    subvec(cs, a, b)
}

/// Decides `is_space` executably.
pub(crate) fn is_space_exec(c: char) -> (r: bool)
    ensures
        r == is_space(c),
{
    let u: u32 = c as u32;
    (9 <= u && u <= 13) || u == 32 || u == 0x85 || u == 0xA0 || u == 0x1680 || (0x2000 <= u && u
        <= 0x200A) || u == 0x2028 || u == 0x2029 || u == 0x202F || u == 0x205F || u == 0x3000
}

} // verus!
