//! Boundary location: the span of the embedded metadata block, newline
//! normalization for it, and best-effort recognition of the
//! copyright/license notice.
//!
//! The license notice is a copyright comment line — `// Copyright`,
//! optionally `(c)`, a word token, free text ending in a period, one or
//! two spaces and `All rights reserved.` — followed on the next comment
//! line by one of four known license-reference phrasings, compared
//! without regard to ASCII case.  The notice span includes the
//! phrasing's own line terminator and nothing after it.

use vstd::prelude::*;

use crate::text::{matches_ci, matches_ci_at, occurs_at};

verus! {

/// `pat` occurs at `i` of `t` and nowhere earlier.
pub open spec fn first_occurrence(t: Seq<char>, pat: Seq<char>, i: int) -> bool {
    occurs_at(t, pat, i) && forall|k: int| 0 <= k < i ==> !occurs_at(t, pat, k)
}

/// Every carriage return replaced by a line feed.
pub open spec fn normalized(t: Seq<char>) -> Seq<char> {
    t.map_values(|c: char| if c == '\r' { '\n' } else { c })
}

/// Every carriage return of `t` replaced by a line feed.
pub fn normalize_newlines(t: &Vec<char>) -> (r: Vec<char>)
    ensures
        r@ == normalized(t@),
{
    let n = t.len();
    let mut r: Vec<char> = Vec::new();
    let mut i: usize = 0;
    while i < n
        invariant
            i <= n,
            n == t@.len(),
            r@ =~= normalized(t@).subrange(0, i as int),
        decreases n - i,
    {
        if t[i] == '\r' {
            r.push('\n');
        } else {
            r.push(t[i]);
        }
        i = i + 1;
    }
    proof {
        assert(r@ =~= normalized(t@));
    }
    r
}

/// A line-terminator character.
pub open spec fn nl_char(c: char) -> bool {
    c == '\n' || c == '\r'
}

/// A word character: an ASCII letter, digit or underscore.
pub open spec fn word_char(c: char) -> bool {
    let n = c as int;
    (48 <= n && n <= 57) || (65 <= n && n <= 90) || (97 <= n && n <= 122) || n == 95
}

/// The position of the first line-terminator at or after `i`, or the
/// end of the text.
pub open spec fn line_end(t: Seq<char>, i: int) -> int
    decreases t.len() - i,
    when 0 <= i <= t.len()
{
    if i == t.len() {
        i
    } else if nl_char(t[i]) {
        i
    } else {
        line_end(t, i + 1)
    }
}

/// The end of the run of word characters beginning at `j`, scanning no
/// further than `e`.
pub open spec fn word_run_end(t: Seq<char>, j: int, e: int) -> int
    decreases e - j,
    when 0 <= j <= e <= t.len()
{
    if j < e && word_char(t[j]) {
        word_run_end(t, j + 1, e)
    } else {
        j
    }
}

/// The position after the one or two line-terminator characters at
/// `e`, or nothing if `e` carries none.
pub open spec fn after_newlines(t: Seq<char>, e: int) -> Option<int> {
    if 0 <= e < t.len() && nl_char(t[e]) {
        if e + 1 < t.len() && nl_char(t[e + 1]) {
            Some(e + 2)
        } else {
            Some(e + 1)
        }
    } else {
        None
    }
}

/// Whether the stretch `[m0, e)` ends in a period, one or two spaces,
/// and `All rights reserved.`, with at least one character of free
/// text before the period.
pub open spec fn reserved_tail_ok(t: Seq<char>, m0: int, e: int) -> bool {
    let arr = "all rights reserved."@;
    &&& e - m0 >= arr.len() + 3
    &&& matches_ci_at(t, e - arr.len(), arr)
    &&& {
        ||| (t[e - arr.len() - 1] == ' ' && t[e - arr.len() - 2] == '.' && e - arr.len() - 2
            > m0)
        ||| (t[e - arr.len() - 1] == ' ' && t[e - arr.len() - 2] == ' ' && t[e - arr.len()
            - 3] == '.' && e - arr.len() - 3 > m0)
    }
}

/// If a copyright line begins at `i`, the position of its
/// line-terminator; the terminator must exist, since a phrasing line
/// has to follow.
pub open spec fn copyright_line_end(t: Seq<char>, i: int) -> Option<int> {
    let e = line_end(t, i);
    let head = "// copyright"@;
    if matches_ci_at(t, i, head) {
        let p = if matches_ci_at(t, i + head.len(), " (c)"@) {
            i + head.len() + " (c)"@.len()
        } else {
            i + head.len()
        };
        if p < e && t[p] == ' ' {
            let q = word_run_end(t, p + 1, e);
            if q > p + 1 && q < e && t[q] == ' ' && reserved_tail_ok(t, q + 1, e) && e
                < t.len() {
                Some(e)
            } else {
                None
            }
        } else {
            None
        }
    } else {
        None
    }
}

/// If one of the known license-reference phrasings begins at `s`, the
/// position right after it.  The first phrasing names the governing
/// license with an optional word, as in `the BSD license` or `the MIT
/// license`.
pub open spec fn phrasing_end(t: Seq<char>, s: int) -> Option<int> {
    let governed = "// this code is governed by the"@;
    let found = " license found in the license file."@;
    let details = "// see license for details"@;
    let bsd_style = "// use of this source code is governed by a bsd-style license that can be"@;
    let bsd_found = "// found in the license file."@;
    let web = "// see license or https://github.com/tc39/test262/blob/master/license"@;
    if matches_ci_at(t, s, governed) {
        let p0 = s + governed.len();
        let with_name = if p0 < t.len() && t[p0] == ' ' {
            let w = word_run_end(t, p0 + 1, t.len() as int);
            if w > p0 + 1 && matches_ci_at(t, w, found) {
                Some(w + found.len())
            } else {
                None
            }
        } else {
            None
        };
        match with_name {
            Some(e) => Some(e),
            None => if matches_ci_at(t, p0, found) {
                Some(p0 + found.len())
            } else {
                None
            },
        }
    } else if matches_ci_at(t, s, details) && s + details.len() < t.len() && !nl_char(
        t[s + details.len()],
    ) {
        Some(s + details.len() + 1)
    } else if matches_ci_at(t, s, bsd_style) {
        match after_newlines(t, s + bsd_style.len()) {
            Some(m) => if matches_ci_at(t, m, bsd_found) {
                Some(m + bsd_found.len())
            } else {
                None
            },
            None => None,
        }
    } else if matches_ci_at(t, s, web) {
        Some(s + web.len())
    } else {
        None
    }
}

/// The end of the line terminator at `pe`, where a bare carriage
/// return, a bare line feed, and the two-character pair each count
/// once; `pe` itself where none follows.
pub open spec fn past_terminator(t: Seq<char>, pe: int) -> int {
    if 0 <= pe < t.len() && t[pe] == '\r' && pe + 1 < t.len() && t[pe + 1] == '\n' {
        pe + 2
    } else if 0 <= pe < t.len() && nl_char(t[pe]) {
        pe + 1
    } else {
        pe
    }
}

/// Where the license notice beginning at `i` ends, if one does begin
/// there: the copyright line, its one or two terminator characters, a
/// phrasing, and the phrasing's own line terminator.
pub open spec fn notice_end(t: Seq<char>, i: int) -> Option<int> {
    if 0 <= i < t.len() {
        match copyright_line_end(t, i) {
            Some(e) => match after_newlines(t, e) {
                Some(s) => match phrasing_end(t, s) {
                    Some(pe) => Some(past_terminator(t, pe)),
                    None => None,
                },
                None => None,
            },
            None => None,
        }
    } else {
        None
    }
}

/// The position of the first line-terminator at or after `i`.
fn line_end_at(t: &Vec<char>, i: usize) -> (r: usize)
    requires
        i <= t@.len(),
    ensures
        r == line_end(t@, i as int),
        i <= r <= t@.len(),
        r < t@.len() ==> nl_char(t@[r as int]),
{
    let n = t.len();
    let mut j: usize = i;
    while j < n && t[j] != '\n' && t[j] != '\r'
        invariant
            i <= j <= n,
            n == t@.len(),
            line_end(t@, i as int) == line_end(t@, j as int),
        decreases n - j,
    {
        j = j + 1;
    }
    j
}

/// Whether `c` is a word character.
fn is_word_char(c: char) -> (r: bool)
    ensures
        r == word_char(c),
{
    let n = c as u32;
    (48 <= n && n <= 57) || (65 <= n && n <= 90) || (97 <= n && n <= 122) || n == 95
}

/// The end of the run of word characters beginning at `j`.
fn word_run_end_at(t: &Vec<char>, j: usize, e: usize) -> (r: usize)
    requires
        j <= e <= t@.len(),
    ensures
        r == word_run_end(t@, j as int, e as int),
        j <= r <= e,
{
    let mut k: usize = j;
    while k < e && is_word_char(t[k])
        invariant
            j <= k <= e,
            e <= t@.len(),
            word_run_end(t@, j as int, e as int) == word_run_end(t@, k as int, e as int),
        decreases e - k,
    {
        k = k + 1;
    }
    k
}

/// Where the notice beginning at `i` ends, if one begins there.
fn notice_end_at(t: &Vec<char>, i: usize) -> (r: Option<usize>)
    requires
        i < t@.len(),
    ensures
        match r {
            Some(e) => notice_end(t@, i as int) == Some(e as int) && i <= e <= t@.len(),
            None => notice_end(t@, i as int) is None,
        },
{
    let n = t.len();
    let e = line_end_at(t, i);
    if !matches_ci(t, i, "// copyright") {
        return None;
    }
    let head_len = "// copyright".unicode_len();
    let p = if matches_ci(t, i + head_len, " (c)") {
        i + head_len + " (c)".unicode_len()
    } else {
        i + head_len
    };
    if !(p < e && t[p] == ' ') {
        return None;
    }
    let q = word_run_end_at(t, p + 1, e);
    if !(q > p + 1 && q < e) {
        return None;
    }
    if t[q] != ' ' {
        return None;
    }
    let m0 = q + 1;
    let arr_len = "all rights reserved.".unicode_len();
    if e - m0 < 3 || e - m0 - 3 < arr_len {
        return None;
    }
    if !matches_ci(t, e - arr_len, "all rights reserved.") {
        return None;
    }
    let d1 = e - arr_len;
    let tail_ok = if t[d1 - 1] == ' ' {
        if t[d1 - 2] == '.' {
            d1 - 2 > m0
        } else if t[d1 - 2] == ' ' {
            t[d1 - 3] == '.' && d1 - 3 > m0
        } else {
            false
        }
    } else {
        false
    };
    if !tail_ok {
        return None;
    }
    if e >= n {
        return None;
    }
    let s = if e + 1 < n && (t[e + 1] == '\n' || t[e + 1] == '\r') {
        e + 2
    } else {
        e + 1
    };
    match phrasing_end_at(t, s) {
        Some(pe) => {
            let end = if pe < n && t[pe] == '\r' && pe + 1 < n && t[pe + 1] == '\n' {
                pe + 2
            } else if pe < n && (t[pe] == '\n' || t[pe] == '\r') {
                pe + 1
            } else {
                pe
            };
            Some(end)
        },
        None => None,
    }
}

/// The end of the license-reference phrasing beginning at `s`, if one
/// does.
fn phrasing_end_at(t: &Vec<char>, s: usize) -> (r: Option<usize>)
    requires
        s <= t@.len(),
    ensures
        match r {
            Some(pe) => phrasing_end(t@, s as int) == Some(pe as int) && pe <= t@.len(),
            None => phrasing_end(t@, s as int) is None,
        },
{
    let n = t.len();
    let governed_len = "// this code is governed by the".unicode_len();
    let details_len = "// see license for details".unicode_len();
    if matches_ci(t, s, "// this code is governed by the") {
        let p0 = s + governed_len;
        if p0 < n && t[p0] == ' ' {
            let w = word_run_end_at(t, p0 + 1, n);
            if w > p0 + 1 && matches_ci(t, w, " license found in the license file.") {
                return Some(w + " license found in the license file.".unicode_len());
            }
        }
        if matches_ci(t, p0, " license found in the license file.") {
            Some(p0 + " license found in the license file.".unicode_len())
        } else {
            None
        }
    } else if matches_ci(t, s, "// see license for details") && s + details_len < n
        && t[s + details_len] != '\n' && t[s + details_len] != '\r' {
        Some(s + details_len + 1)
    } else if matches_ci(t, s, "// use of this source code is governed by a bsd-style license that can be") {
        let b = s + "// use of this source code is governed by a bsd-style license that can be".unicode_len();
        if b < n && (t[b] == '\n' || t[b] == '\r') {
            let m = if b + 1 < n && (t[b + 1] == '\n' || t[b + 1] == '\r') {
                b + 2
            } else {
                b + 1
            };
            if matches_ci(t, m, "// found in the license file.") {
                Some(m + "// found in the license file.".unicode_len())
            } else {
                None
            }
        } else {
            None
        }
    } else if matches_ci(t, s, "// see license or https://github.com/tc39/test262/blob/master/license") {
        Some(s + "// see license or https://github.com/tc39/test262/blob/master/license".unicode_len())
    } else {
        None
    }
}

/// The first license notice of `t`, as the half-open span of character
/// positions it covers; `None` where no notice occurs, which is a
/// normal state, not an error.
pub fn license_span(t: &Vec<char>) -> (r: Option<(usize, usize)>)
    ensures
        match r {
            Some(p) => {
                &&& notice_end(t@, p.0 as int) == Some(p.1 as int)
                &&& forall|k: int| 0 <= k < p.0 ==> notice_end(t@, k) is None
                &&& p.0 <= p.1 <= t@.len()
            },
            None => forall|k: int| notice_end(t@, k) is None,
        },
{
    let n = t.len();
    let mut i: usize = 0;
    while i < n
        invariant
            i <= n,
            n == t@.len(),
            forall|k: int| 0 <= k < i ==> notice_end(t@, k) is None,
        decreases n - i,
    {
        match notice_end_at(t, i) {
            Some(e) => {
                return Some((i, e));
            },
            None => {},
        }
        i = i + 1;
    }
    proof {
        assert forall|k: int| notice_end(t@, k) is None by {
            if 0 <= k < n {
                assert(notice_end(t@, k) is None);
            }
        }
    }
    None
}

} // verus!
