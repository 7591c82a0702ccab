//! The per-corpus harness: the filtered file list, and the per-file
//! extraction that turns raw text into a [`Test`].
//!
//! Walking the filesystem and reading files are the caller's business;
//! the harness receives the walk's outcomes as plain values, filters
//! them, and hands the paths back one at a time, so that the caller can
//! read each file and ask [`Harness::create_test`] for the extraction.

use vstd::prelude::*;
use vstd::string::StringExecFns;
use vstd::string::StrSliceExecFns;

use crate::boundary::{first_occurrence, license_span, normalize_newlines, normalized, notice_end};
use crate::error::Error;
use crate::schema::{decode_description, spec_decode_text, Description, DescriptionV};
use crate::text::{chars_of, find_first, spec_ends_with, str_ends_with, sub_chars};

verus! {

/// One outcome of the caller's filesystem walk: a visited entry, as
/// the plain values the filter reads.
#[derive(Debug, Clone, PartialEq)]
pub struct WalkEntry {
    /// The full path of the entry.
    pub path: String,
    /// The final component of the path; empty where the path has none.
    pub file_name: String,
    /// Whether the entry is a directory.
    pub is_dir: bool,
}

/// The shape of a [`WalkEntry`].
pub struct WalkEntryV {
    pub path: Seq<char>,
    pub file_name: Seq<char>,
    pub is_dir: bool,
}

impl View for WalkEntry {
    type V = WalkEntryV;

    open spec fn view(&self) -> WalkEntryV {
        WalkEntryV { path: self.path@, file_name: self.file_name@, is_dir: self.is_dir }
    }
}

/// The filter of the corpus walk: a non-directory whose name ends in
/// the script extension but not in the reserved fixture suffix.
pub open spec fn included_file(e: WalkEntryV) -> bool {
    &&& !e.is_dir
    &&& spec_ends_with(e.file_name, ".js"@)
    &&& e.file_name.len() > ".js"@.len()
    &&& !spec_ends_with(e.file_name, "_FIXTURE.js"@)
}

/// Every walk outcome succeeded.
pub open spec fn all_ok(es: Seq<Result<WalkEntry, String>>) -> bool {
    forall|i: int| 0 <= i < es.len() ==> es[i] is Ok
}

/// The paths of the included files among `es`, in discovery order.
pub open spec fn selected_paths(es: Seq<Result<WalkEntry, String>>) -> Seq<Seq<char>>
    decreases es.len(),
{
    if es.len() == 0 {
        Seq::empty()
    } else {
        let rest = selected_paths(es.subrange(0, es.len() - 1));
        match es[es.len() - 1] {
            Ok(e) => if included_file(e@) {
                rest.push(e.path@)
            } else {
                rest
            },
            Err(_) => rest,
        }
    }
}

/// Whether the walk filter admits `e`.
fn is_included(e: &WalkEntry) -> (r: bool)
    ensures
        r == included_file(e@),
{
    if e.is_dir {
        return false;
    }
    let name = e.file_name.as_str();
    str_ends_with(name, ".js") && name.unicode_len() > ".js".unicode_len() && !str_ends_with(
        name,
        "_FIXTURE.js",
    )
}

/// The corpus harness: the materialized, filtered file list, and the
/// cursor of the single forward pass over it.
#[derive(Debug)]
pub struct Harness {
    test_paths: Vec<String>,
    idx: usize,
}

/// The shape of a [`Harness`].
pub struct HarnessV {
    pub paths: Seq<Seq<char>>,
    pub idx: int,
}

impl View for Harness {
    type V = HarnessV;

    closed spec fn view(&self) -> HarnessV {
        HarnessV { paths: self.test_paths.deep_view(), idx: self.idx as int }
    }
}

impl Harness {
    /// Builds the harness from the outcomes of a filesystem walk, in
    /// discovery order.  The first failed outcome aborts the whole
    /// walk; otherwise the harness holds exactly the included paths.
    pub fn new(entries: Vec<Result<WalkEntry, String>>) -> (r: Result<Harness, Error>)
        ensures
            r is Ok <==> all_ok(entries@),
            r matches Ok(h) ==> h@.paths == selected_paths(entries@) && h@.idx == 0,
            r matches Err(e) ==> e matches Error::WalkDir(m) && exists|i: int|
                {
                    &&& 0 <= i < entries@.len()
                    &&& #[trigger] entries@[i] matches Err(w) && m@ == w@
                    &&& forall|k: int| 0 <= k < i ==> entries@[k] is Ok
                },
    {
        let n = entries.len();
        let mut paths: Vec<String> = Vec::new();
        let mut i: usize = 0;
        proof {
            assert(entries@.subrange(0, 0) =~= Seq::<Result<WalkEntry, String>>::empty());
            assert(paths.deep_view() =~= Seq::<Seq<char>>::empty());
        }
        #[verifier::loop_isolation(false)]
        while i < n
            invariant
                i <= n,
                paths.deep_view() == selected_paths(entries@.subrange(0, i as int)),
                forall|k: int| 0 <= k < i ==> entries@[k] is Ok,
            decreases n - i,
        {
            let ghost prefix = entries@.subrange(0, i as int);
            let ghost old_paths = paths.deep_view();
            match &entries[i] {
                Err(m) => {
                    return Err(Error::WalkDir(m.clone()));
                },
                Ok(e) => {
                    if is_included(e) {
                        paths.push(e.path.clone());
                    }
                },
            }
            proof {
                let next = entries@.subrange(0, i + 1);
                assert(next.subrange(0, next.len() - 1) =~= prefix);
                assert(next[next.len() - 1] == entries@[i as int]);
                if included_file(entries@[i as int]->Ok_0@) {
                    assert(paths.deep_view() =~= old_paths.push(
                        entries@[i as int]->Ok_0.path@,
                    ));
                } else {
                    assert(paths.deep_view() =~= old_paths);
                }
            }
            i = i + 1;
        }
        proof {
            assert(entries@.subrange(0, n as int) =~= entries@);
        }
        Ok(Harness { test_paths: paths, idx: 0 })
    }

    /// The next path of the single forward pass, or nothing once the
    /// list is exhausted.
    pub fn next_path(&mut self) -> (r: Option<String>)
        ensures
            old(self)@.idx < old(self)@.paths.len() ==> {
                &&& r matches Some(p) && p@ == old(self)@.paths[old(self)@.idx]
                &&& final(self)@.paths == old(self)@.paths
                &&& final(self)@.idx == old(self)@.idx + 1
            },
            old(self)@.idx >= old(self)@.paths.len() ==> r is None && final(self)@ == old(
                self,
            )@,
    {
        if self.idx < self.test_paths.len() {
            let p = self.test_paths[self.idx].clone();
            proof {
                assert(self.test_paths.deep_view()[self.idx as int] == self.test_paths@[
                    self.idx as int
                ]@);
            }
            self.idx = self.idx + 1;
            Some(p)
        } else {
            None
        }
    }

    /// The span of the metadata text inside `content`: the characters
    /// strictly between the first opening marker and the first closing
    /// marker.  Either marker missing is reported as an unrecognizable
    /// metadata block, under the given path.
    pub fn find_yaml(content: &str, path: &str) -> (r: Result<(usize, usize), Error>)
        ensures
            r is Ok <==> (exists|o: int| first_occurrence(content@, "/*---"@, o)) && (
            exists|c: int| first_occurrence(content@, "---*/"@, c)),
            r matches Ok(p) ==> exists|o: int|
                {
                    &&& #[trigger] first_occurrence(content@, "/*---"@, o)
                    &&& p.0 == o + "/*---"@.len()
                    &&& first_occurrence(content@, "---*/"@, p.1 as int)
                    &&& p.1 <= content@.len()
                },
            r matches Err(e) ==> e matches Error::DescriptionInvalid(q) && q@ == path@,
    {
        let cs = chars_of(content);
        let n = cs.len();
        let open = match find_first(&cs, "/*---") {
            Some(o) => o,
            None => {
                proof {
                    assert(forall|o: int| !first_occurrence(content@, "/*---"@, o));
                }
                return Err(Error::DescriptionInvalid(String::from_str(path)));
            },
        };
        let close = match find_first(&cs, "---*/") {
            Some(c) => c,
            None => {
                proof {
                    assert(forall|c: int| !first_occurrence(content@, "---*/"@, c));
                }
                return Err(Error::DescriptionInvalid(String::from_str(path)));
            },
        };
        let open_len = "/*---".unicode_len();
        proof {
            assert(first_occurrence(content@, "/*---"@, open as int));
            assert(first_occurrence(content@, "---*/"@, close as int));
            assert(open + open_len <= n);
        }
        Ok((open + open_len, close))
    }

    /// Extracts one corpus file: locates the metadata block, normalizes
    /// its line endings, decodes it, and records the license-notice
    /// span, keeping the raw text and the path.
    pub fn create_test(contents: String, path: String) -> (r: Result<Test, Error>)
        ensures
            r matches Ok(test) ==> {
                &&& metadata_text(contents@) matches Some(m)
                &&& spec_decode_text(m) == Some(test@.desc)
                &&& test@.source == contents@
                &&& test@.path == path@
                &&& test.wf()
                &&& match test@.license {
                    Some(p) => notice_end(contents@, p.0 as int) == Some(p.1 as int)
                        && forall|k: int| 0 <= k < p.0 ==> notice_end(contents@, k) is None,
                    None => forall|k: int| notice_end(contents@, k) is None,
                }
            },
            r matches Err(e) ==> e is DescriptionInvalid || e is Yaml,
            (r matches Err(e) && e is DescriptionInvalid) <==> metadata_text(contents@)
                is None,
            r matches Err(e) ==> (e matches Error::DescriptionInvalid(q) ==> q@ == path@),
            (r matches Err(e) && e is Yaml) <==> (metadata_text(contents@) matches Some(m)
                && spec_decode_text(m) is None),
    {
        let bounds = match Self::find_yaml(contents.as_str(), path.as_str()) {
            Ok(b) => b,
            Err(e) => {
                proof {
                    lemma_metadata_text_missing(contents@);
                }
                return Err(e);
            },
        };
        let cs = chars_of(contents.as_str());
        if bounds.0 > bounds.1 {
            proof {
                lemma_metadata_text_crossed(contents@, bounds.0 as int, bounds.1 as int);
            }
            return Err(Error::DescriptionInvalid(path));
        }
        proof {
            lemma_metadata_text_found(contents@, bounds.0 as int, bounds.1 as int);
        }
        let region = sub_chars(&cs, bounds.0, bounds.1);
        let yaml_text = normalize_newlines(&region);
        let desc = match decode_description(&yaml_text) {
            Ok(d) => d,
            Err(e) => {
                return Err(e);
            },
        };
        let license = license_span(&cs);
        Ok(Test { source: contents, path, desc, license })
    }
}

/// The normalized metadata text of `t`: what stands strictly between
/// the first opening marker and the first closing marker, with
/// carriage returns turned into line feeds; nothing where a marker is
/// missing or the first closing marker precedes the end of the first
/// opening one.
pub open spec fn metadata_text(t: Seq<char>) -> Option<Seq<char>> {
    if (exists|o: int| first_occurrence(t, "/*---"@, o)) && (exists|c: int|
        first_occurrence(t, "---*/"@, c)) {
        let o = choose|o: int| first_occurrence(t, "/*---"@, o);
        let c = choose|c: int| first_occurrence(t, "---*/"@, c);
        if o + "/*---"@.len() <= c {
            Some(normalized(t.subrange(o + "/*---"@.len(), c)))
        } else {
            None
        }
    } else {
        None
    }
}

/// A first occurrence is the only first occurrence.
proof fn lemma_first_unique(t: Seq<char>, pat: Seq<char>, i: int)
    requires
        first_occurrence(t, pat, i),
    ensures
        (choose|j: int| first_occurrence(t, pat, j)) == i,
{
    let j = choose|j: int| first_occurrence(t, pat, j);
    assert(first_occurrence(t, pat, j));
}

/// Without both markers there is no metadata text.
proof fn lemma_metadata_text_missing(t: Seq<char>)
    requires
        !((exists|o: int| first_occurrence(t, "/*---"@, o)) && (exists|c: int|
            first_occurrence(t, "---*/"@, c))),
    ensures
        metadata_text(t) is None,
{
}

/// A first closing marker before the end of the first opening marker
/// leaves no metadata text.
proof fn lemma_metadata_text_crossed(t: Seq<char>, s: int, c: int)
    requires
        exists|o: int| #[trigger] first_occurrence(t, "/*---"@, o) && s == o + "/*---"@.len(),
        first_occurrence(t, "---*/"@, c),
        s > c,
    ensures
        metadata_text(t) is None,
{
    let o = choose|o: int| first_occurrence(t, "/*---"@, o) && s == o + "/*---"@.len();
    lemma_first_unique(t, "/*---"@, o);
    lemma_first_unique(t, "---*/"@, c);
}

/// With both markers in order, the metadata text is the normalized
/// stretch between them.
proof fn lemma_metadata_text_found(t: Seq<char>, s: int, c: int)
    requires
        exists|o: int| #[trigger] first_occurrence(t, "/*---"@, o) && s == o + "/*---"@.len(),
        first_occurrence(t, "---*/"@, c),
        s <= c,
    ensures
        metadata_text(t) == Some(normalized(t.subrange(s, c))),
{
    let o = choose|o: int| first_occurrence(t, "/*---"@, o) && s == o + "/*---"@.len();
    lemma_first_unique(t, "/*---"@, o);
    lemma_first_unique(t, "---*/"@, c);
}

/// One extracted corpus file.
#[derive(Debug)]
pub struct Test {
    /// The full raw text, license and metadata comments included.
    pub source: String,
    /// Where the file was found.
    pub path: String,
    /// The decoded metadata.
    pub desc: Description,
    license: Option<(usize, usize)>,
}

/// The shape of a [`Test`].
pub struct TestV {
    pub source: Seq<char>,
    pub path: Seq<char>,
    pub desc: DescriptionV,
    pub license: Option<(usize, usize)>,
}

impl View for Test {
    type V = TestV;

    closed spec fn view(&self) -> TestV {
        TestV {
            source: self.source@,
            path: self.path@,
            desc: self.desc@,
            license: self.license,
        }
    }
}

impl Test {
    /// The license span, where present, lies within the text.
    pub open spec fn wf(&self) -> bool {
        match self@.license {
            Some(p) => p.0 <= p.1 <= self@.source.len(),
            None => true,
        }
    }

    /// The text of the license notice, if one was recognized.
    pub fn license(&self) -> (r: Option<&str>)
        requires
            self.wf(),
        ensures
            match r {
                Some(s) => self@.license matches Some(p) && s@ == self@.source.subrange(
                    p.0 as int,
                    p.1 as int,
                ),
                None => self@.license is None,
            },
    {
        match self.license {
            None => None,
            Some((s, e)) => Some(self.source.as_str().substring_char(s, e)),
        }
    }
}

} // verus!
