//! Character-level text utilities: case-insensitive comparison and
//! substring search over character sequences.

use vstd::prelude::*;

verus! {

/// The Unicode code point of `c`, with the ASCII capitals folded onto
/// the corresponding small letters.  Only ASCII case matters to the
/// patterns this crate recognizes.
pub open spec fn lower_code(c: char) -> int {
    if 65 <= c as int && c as int <= 90 {
        c as int + 32
    } else {
        c as int
    }
}

/// Character equality up to ASCII case.
pub open spec fn ci_eq(a: char, b: char) -> bool {
    lower_code(a) == lower_code(b)
}

/// `pat` occurs at position `i` of `t`, comparing up to ASCII case.
pub open spec fn matches_ci_at(t: Seq<char>, i: int, pat: Seq<char>) -> bool {
    &&& 0 <= i
    &&& i + pat.len() <= t.len()
    &&& forall|j: int| 0 <= j < pat.len() ==> #[trigger] ci_eq(t[i + j], pat[j])
}

/// `pat` occurs at position `i` of `t`, compared exactly.
pub open spec fn occurs_at(t: Seq<char>, pat: Seq<char>, i: int) -> bool {
    &&& 0 <= i
    &&& i + pat.len() <= t.len()
    &&& t.subrange(i, i + pat.len()) == pat
}

/// The code point of `c` with an ASCII capital folded to lower case.
pub fn lower_of(c: char) -> (r: u32)
    ensures
        r == lower_code(c),
{
    let n = c as u32;
    if 65 <= n && n <= 90 {
        n + 32
    } else {
        n
    }
}

/// The characters of `s`, materialized for random access.
pub fn chars_of(s: &str) -> (r: Vec<char>)
    ensures
        r@ == s@,
{
    let n = s.unicode_len();
    let mut r: Vec<char> = Vec::new();
    let mut i: usize = 0;
    while i < n
        invariant
            i <= n,
            n == s@.len(),
            r@ == s@.subrange(0, i as int),
        decreases n - i,
    {
        r.push(s.get_char(i));
        proof {
            assert(s@.subrange(0, i + 1 as int) =~= s@.subrange(0, i as int).push(s@[i as int]));
        }
        i = i + 1;
    }
    proof {
        assert(r@ =~= s@);
    }
    r
}

/// Exact equality of two string slices, decided character by character.
pub fn str_eq(a: &str, b: &str) -> (r: bool)
    ensures
        r == (a@ == b@),
{
    let na = a.unicode_len();
    let nb = b.unicode_len();
    if na != nb {
        return false;
    }
    let mut i: usize = 0;
    while i < na
        invariant
            i <= na,
            na == a@.len(),
            na == b@.len(),
            forall|j: int| 0 <= j < i ==> a@[j] == b@[j],
        decreases na - i,
    {
        if a.get_char(i) != b.get_char(i) {
            return false;
        }
        i = i + 1;
    }
    proof {
        assert(a@ =~= b@);
    }
    true
}

/// `suffix` closes `s`.
pub open spec fn spec_ends_with(s: Seq<char>, suffix: Seq<char>) -> bool {
    s.len() >= suffix.len() && s.subrange(s.len() - suffix.len(), s.len() as int) == suffix
}

/// Whether `suffix` closes `s`, decided character by character.
pub fn str_ends_with(s: &str, suffix: &str) -> (r: bool)
    ensures
        r == spec_ends_with(s@, suffix@),
{
    let n = s.unicode_len();
    let m = suffix.unicode_len();
    if m > n {
        return false;
    }
    let base: usize = n - m;
    let mut i: usize = 0;
    while i < m
        invariant
            i <= m,
            base + m == n,
            n == s@.len(),
            m == suffix@.len(),
            forall|j: int| 0 <= j < i ==> s@[base + j] == suffix@[j],
        decreases m - i,
    {
        if s.get_char(base + i) != suffix.get_char(i) {
            proof {
                assert(s@.subrange(base as int, s@.len() as int)[i as int] != suffix@[i as int]);
            }
            return false;
        }
        i = i + 1;
    }
    proof {
        assert(s@.subrange(base as int, s@.len() as int) =~= suffix@);
    }
    true
}

/// The characters of `t` between `a` and `b`.
pub fn sub_chars(t: &Vec<char>, a: usize, b: usize) -> (r: Vec<char>)
    requires
        a <= b <= t@.len(),
    ensures
        r@ == t@.subrange(a as int, b as int),
{
    let mut r: Vec<char> = Vec::new();
    let mut i: usize = a;
    while i < b
        invariant
            a <= i <= b,
            b <= t@.len(),
            r@ =~= t@.subrange(a as int, i as int),
        decreases b - i,
    {
        r.push(t[i]);
        i = i + 1;
    }
    proof {
        assert(r@ =~= t@.subrange(a as int, b as int));
    }
    r
}

/// Whether `pat` occurs at position `i` of `t` up to ASCII case.
pub fn matches_ci(t: &Vec<char>, i: usize, pat: &str) -> (r: bool)
    ensures
        r == matches_ci_at(t@, i as int, pat@),
{
    let m = pat.unicode_len();
    let n = t.len();
    if i > n || m > n - i {
        return false;
    }
    let mut j: usize = 0;
    while j < m
        invariant
            j <= m,
            m == pat@.len(),
            n == t@.len(),
            i + m <= n,
            forall|k: int| 0 <= k < j ==> #[trigger] ci_eq(t@[i + k], pat@[k]),
        decreases m - j,
    {
        if lower_of(t[i + j]) != lower_of(pat.get_char(j)) {
            proof {
                assert(!ci_eq(t@[i + j], pat@[j as int]));
            }
            return false;
        }
        j = j + 1;
    }
    true
}

/// Whether `pat` occurs at position `i` of `t`, compared exactly.
pub fn matches_at(t: &Vec<char>, i: usize, pat: &str) -> (r: bool)
    ensures
        r == occurs_at(t@, pat@, i as int),
{
    let m = pat.unicode_len();
    let n = t.len();
    if i > n || m > n - i {
        return false;
    }
    let mut j: usize = 0;
    while j < m
        invariant
            j <= m,
            m == pat@.len(),
            n == t@.len(),
            i + m <= n,
            forall|k: int| 0 <= k < j ==> t@[i + k] == pat@[k],
        decreases m - j,
    {
        if t[i + j] != pat.get_char(j) {
            proof {
                assert(t@.subrange(i as int, i + m as int)[j as int] != pat@[j as int]);
            }
            return false;
        }
        j = j + 1;
    }
    proof {
        assert(t@.subrange(i as int, i + m as int) =~= pat@);
    }
    true
}

/// The first position of `t` at which `pat` occurs exactly, if any.
pub fn find_first(t: &Vec<char>, pat: &str) -> (r: Option<usize>)
    ensures
        match r {
            Some(i) => occurs_at(t@, pat@, i as int) && forall|k: int|
                0 <= k < i ==> !occurs_at(t@, pat@, k),
            None => forall|k: int| !occurs_at(t@, pat@, k),
        },
{
    let n = t.len();
    let mut i: usize = 0;
    while i < n
        invariant
            i <= n,
            n == t@.len(),
            forall|k: int| 0 <= k < i ==> !occurs_at(t@, pat@, k),
        decreases n - i,
    {
        if matches_at(t, i, pat) {
            return Some(i);
        }
        i = i + 1;
    }
    if matches_at(t, n, pat) {
        return Some(n);
    }
    proof {
        assert forall|k: int| !occurs_at(t@, pat@, k) by {
            if 0 <= k <= n {
                assert(!occurs_at(t@, pat@, k));
            }
        }
    }
    None
}

} // verus!
