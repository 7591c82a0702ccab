//! The metadata schema: the typed record a metadata document decodes
//! to, and the decoder itself.
//!
//! The decoder works on the [`Yaml`] tree.  Unknown keys are tolerated
//! everywhere; a present key whose value has the wrong shape, an
//! unrecognized enumeration spelling, and a `negative` object without a
//! resolvable `phase` are schema failures.  Absent optional fields
//! decode to `None`, absent collections to empty ones.

use vstd::prelude::*;
use vstd::string::StringExecFns;

use crate::error::Error;
use crate::text::str_eq;
use crate::yaml::{parse_yaml, yaml_doc_of, Yaml, YamlV, entry_views, item_views,
    lemma_entry_views, lemma_item_views, yaml_view};

verus! {

broadcast use lemma_entry_views, lemma_item_views;

/// When a test that is expected to fail should fail.
///
/// The wire spelling is the lower-camel-case variant name.
#[derive(Debug, Clone, Copy, PartialEq, Eq, Structural)]
pub enum Phase {
    /// During parsing.
    Parse,
    /// After parsing but before evaluation.
    Early,
    /// During module resolution.
    Resolution,
    /// During evaluation.
    Runtime,
}

/// An execution requirement of a test.
///
/// The wire spelling is the lower-camel-case variant name; the two
/// CanBlock variants are also accepted capitalized, and
/// `NonDeterministic` under its hyphenated legacy spelling.
#[derive(Debug, Clone, Copy, PartialEq, Eq, Structural)]
pub enum Flag {
    /// Run in strict mode only.
    OnlyStrict,
    /// Never run in strict mode.
    NoStrict,
    /// Run as a module.
    Module,
    /// Run exactly as given, non-strict.
    Raw,
    /// Runs asynchronously.
    Async,
    /// Procedurally generated.
    Generated,
    /// The CanBlock record must be false.
    CanBlockIsFalse,
    /// The CanBlock record must be true.
    CanBlockIsTrue,
    /// May pass in more than one way.
    NonDeterministic,
}

/// How a test is expected to fail.
#[derive(Debug, Clone, PartialEq)]
pub struct Negative {
    /// The phase in which the failure must occur.
    pub phase: Phase,
    /// The name of the expected exception, if any.  The wire key is
    /// `kind`, with `type` accepted as a legacy alias.
    pub kind: Option<String>,
}

/// The shape of a [`Negative`].
pub struct NegativeV {
    pub phase: Phase,
    pub kind: Option<Seq<char>>,
}

impl View for Negative {
    type V = NegativeV;

    open spec fn view(&self) -> NegativeV {
        NegativeV { phase: self.phase, kind: self.kind.deep_view() }
    }
}

impl DeepView for Negative {
    type V = NegativeV;

    open spec fn deep_view(&self) -> NegativeV {
        self.view()
    }
}

/// The decoded metadata of one corpus file.
#[derive(Debug, Clone, PartialEq)]
pub struct Description {
    /// One possible identifier.
    pub id: Option<String>,
    /// One possible identifier.
    pub esid: Option<String>,
    /// One possible identifier.
    pub es5id: Option<String>,
    /// One possible identifier.
    pub es6id: Option<String>,
    /// A longer account of what the test evaluates.
    pub info: Option<String>,
    /// A short account of what the test evaluates.
    pub description: Option<String>,
    /// Present when the test is expected to fail.
    pub negative: Option<Negative>,
    /// Names of auxiliary files the test relies on.
    pub includes: Vec<String>,
    /// How the test must be executed.
    pub flags: Vec<Flag>,
    /// Locales the test should respect.
    pub locale: Vec<String>,
    /// Names of features the test relies on.
    pub features: Vec<String>,
}

/// The shape of a [`Description`].
pub struct DescriptionV {
    pub id: Option<Seq<char>>,
    pub esid: Option<Seq<char>>,
    pub es5id: Option<Seq<char>>,
    pub es6id: Option<Seq<char>>,
    pub info: Option<Seq<char>>,
    pub description: Option<Seq<char>>,
    pub negative: Option<NegativeV>,
    pub includes: Seq<Seq<char>>,
    pub flags: Seq<Flag>,
    pub locale: Seq<Seq<char>>,
    pub features: Seq<Seq<char>>,
}

impl View for Description {
    type V = DescriptionV;

    open spec fn view(&self) -> DescriptionV {
        DescriptionV {
            id: self.id.deep_view(),
            esid: self.esid.deep_view(),
            es5id: self.es5id.deep_view(),
            es6id: self.es6id.deep_view(),
            info: self.info.deep_view(),
            description: self.description.deep_view(),
            negative: self.negative.deep_view(),
            includes: self.includes.deep_view(),
            flags: self.flags@,
            locale: self.locale.deep_view(),
            features: self.features.deep_view(),
        }
    }
}

/// The value under the first entry of `es` whose key is the string
/// `key`, if any.
pub open spec fn lookup(es: Seq<(YamlV, YamlV)>, key: Seq<char>) -> Option<YamlV>
    decreases es.len(),
{
    if es.len() == 0 {
        None
    } else if es[0].0 == YamlV::Str(key) {
        Some(es[0].1)
    } else {
        lookup(es.subrange(1, es.len() as int), key)
    }
}

/// How an optional string field decodes: absent and null are `None`, a
/// string is itself, anything else is a schema failure.
pub open spec fn spec_opt_str(es: Seq<(YamlV, YamlV)>, key: Seq<char>) -> Option<
    Option<Seq<char>>,
> {
    match lookup(es, key) {
        None => Some(None),
        Some(YamlV::Null) => Some(None),
        Some(YamlV::Str(s)) => Some(Some(s)),
        Some(_) => None,
    }
}

/// How a sequence of string scalars decodes; any other node among the
/// items is a schema failure.
pub open spec fn spec_strs_of(items: Seq<YamlV>) -> Option<Seq<Seq<char>>>
    decreases items.len(),
{
    if items.len() == 0 {
        Some(Seq::empty())
    } else {
        match (spec_strs_of(items.subrange(0, items.len() - 1)), items[items.len() - 1]) {
            (Some(ss), YamlV::Str(s)) => Some(ss.push(s)),
            _ => None,
        }
    }
}

/// How a string-list field decodes: absent is empty, a sequence of
/// strings is itself, anything else is a schema failure.
pub open spec fn spec_str_list(es: Seq<(YamlV, YamlV)>, key: Seq<char>) -> Option<
    Seq<Seq<char>>,
> {
    match lookup(es, key) {
        None => Some(Seq::empty()),
        Some(YamlV::List(items)) => spec_strs_of(items),
        Some(_) => None,
    }
}

/// The flag a wire spelling stands for, if it is a recognized one.
pub open spec fn spec_flag_of(s: Seq<char>) -> Option<Flag> {
    if s == "onlyStrict"@ {
        Some(Flag::OnlyStrict)
    } else if s == "noStrict"@ {
        Some(Flag::NoStrict)
    } else if s == "module"@ {
        Some(Flag::Module)
    } else if s == "raw"@ {
        Some(Flag::Raw)
    } else if s == "async"@ {
        Some(Flag::Async)
    } else if s == "generated"@ {
        Some(Flag::Generated)
    } else if s == "canBlockIsFalse"@ || s == "CanBlockIsFalse"@ {
        Some(Flag::CanBlockIsFalse)
    } else if s == "canBlockIsTrue"@ || s == "CanBlockIsTrue"@ {
        Some(Flag::CanBlockIsTrue)
    } else if s == "nonDeterministic"@ || s == "non-deterministic"@ {
        Some(Flag::NonDeterministic)
    } else {
        None
    }
}

/// The phase a wire spelling stands for, if it is a recognized one.
pub open spec fn spec_phase_of(s: Seq<char>) -> Option<Phase> {
    if s == "parse"@ {
        Some(Phase::Parse)
    } else if s == "early"@ {
        Some(Phase::Early)
    } else if s == "resolution"@ {
        Some(Phase::Resolution)
    } else if s == "runtime"@ {
        Some(Phase::Runtime)
    } else {
        None
    }
}

/// How a sequence of flag spellings decodes; a non-string item or an
/// unrecognized spelling is a schema failure.
pub open spec fn spec_flags_of(items: Seq<YamlV>) -> Option<Seq<Flag>>
    decreases items.len(),
{
    if items.len() == 0 {
        Some(Seq::empty())
    } else {
        match (spec_flags_of(items.subrange(0, items.len() - 1)), items[items.len() - 1]) {
            (Some(fs), YamlV::Str(s)) => match spec_flag_of(s) {
                Some(f) => Some(fs.push(f)),
                None => None,
            },
            _ => None,
        }
    }
}

/// How the `flags` field decodes: absent is empty.
pub open spec fn spec_flag_list(es: Seq<(YamlV, YamlV)>) -> Option<Seq<Flag>> {
    match lookup(es, "flags"@) {
        None => Some(Seq::empty()),
        Some(YamlV::List(items)) => spec_flags_of(items),
        Some(_) => None,
    }
}

/// How the `negative` field decodes: absent and null are `None`; an
/// object must carry a recognizable `phase`, and at most one of `kind`
/// and its alias `type`; anything else is a schema failure.
pub open spec fn spec_negative(es: Seq<(YamlV, YamlV)>) -> Option<Option<NegativeV>> {
    match lookup(es, "negative"@) {
        None => Some(None),
        Some(YamlV::Null) => Some(None),
        Some(YamlV::Dict(nd)) => match lookup(nd, "phase"@) {
            Some(YamlV::Str(p)) => match spec_phase_of(p) {
                Some(phase) => {
                    let k1 = lookup(nd, "kind"@);
                    let k2 = lookup(nd, "type"@);
                    if k1 is Some && k2 is Some {
                        None
                    } else {
                        match (if k1 is Some { k1 } else { k2 }) {
                            None => Some(Some(NegativeV { phase, kind: None })),
                            Some(YamlV::Null) => Some(Some(NegativeV { phase, kind: None })),
                            Some(YamlV::Str(s)) => Some(
                                Some(NegativeV { phase, kind: Some(s) }),
                            ),
                            Some(_) => None,
                        }
                    }
                },
                None => None,
            },
            _ => None,
        },
        Some(_) => None,
    }
}

/// How a whole metadata document decodes against the schema: it must
/// be a mapping, and every field of the record must decode.
pub open spec fn spec_doc_decode(y: YamlV) -> Option<DescriptionV> {
    match y {
        YamlV::Dict(es) => match (
            spec_opt_str(es, "id"@),
            spec_opt_str(es, "esid"@),
            spec_opt_str(es, "es5id"@),
            spec_opt_str(es, "es6id"@),
        ) {
            (Some(id), Some(esid), Some(es5id), Some(es6id)) => match (
                spec_opt_str(es, "info"@),
                spec_opt_str(es, "description"@),
                spec_negative(es),
            ) {
                (Some(info), Some(description), Some(negative)) => match (
                    spec_str_list(es, "includes"@),
                    spec_flag_list(es),
                    spec_str_list(es, "locale"@),
                    spec_str_list(es, "features"@),
                ) {
                    (Some(includes), Some(flags), Some(locale), Some(features)) => Some(
                        DescriptionV {
                            id,
                            esid,
                            es5id,
                            es6id,
                            info,
                            description,
                            negative,
                            includes,
                            flags,
                            locale,
                            features,
                        },
                    ),
                    _ => None,
                },
                _ => None,
            },
            _ => None,
        },
        _ => None,
    }
}

/// The value of the first entry of `es` keyed by the string `key`.
fn dict_get<'a>(es: &'a Vec<(Yaml, Yaml)>, key: &str) -> (r: Option<&'a Yaml>)
    ensures
        match r {
            Some(v) => lookup(entry_views(es@), key@) == Some(v@),
            None => lookup(entry_views(es@), key@) is None,
        },
{
    let ghost ev = entry_views(es@);
    let n = es.len();
    let mut i: usize = 0;
    proof {
        assert(ev.subrange(0, ev.len() as int) =~= ev);
    }
    while i < n
        invariant
            i <= n,
            n == es@.len(),
            ev == entry_views(es@),
            lookup(ev, key@) == lookup(ev.subrange(i as int, ev.len() as int), key@),
        decreases n - i,
    {
        let hit = match &es[i].0 {
            Yaml::Str(s) => str_eq(s.as_str(), key),
            _ => false,
        };
        proof {
            assert(ev.subrange(i as int, ev.len() as int)[0] == ev[i as int]);
            assert(ev[i as int].0 == yaml_view(es@[i as int].0));
        }
        if hit {
            return Some(&es[i].1);
        }
        proof {
            assert(ev[i as int].0 != YamlV::Str(key@));
            assert(ev.subrange(i as int, ev.len() as int).subrange(
                1,
                ev.subrange(i as int, ev.len() as int).len() as int,
            ) =~= ev.subrange(i + 1, ev.len() as int));
        }
        i = i + 1;
    }
    proof {
        assert(ev.subrange(n as int, ev.len() as int).len() == 0);
    }
    None
}

/// Decodes an optional string field of `es`.
fn opt_str_field(es: &Vec<(Yaml, Yaml)>, key: &str) -> (r: Result<Option<String>, ()>)
    ensures
        r matches Ok(v) ==> spec_opt_str(entry_views(es@), key@) == Some(v.deep_view()),
        r is Err <==> spec_opt_str(entry_views(es@), key@) is None,
{
    match dict_get(es, key) {
        None => Ok(None),
        Some(v) => match v {
            Yaml::Null => Ok(None),
            Yaml::Str(s) => Ok(Some(s.clone())),
            _ => Err(()),
        },
    }
}

/// Decodes a string-list field of `es`.
fn str_list_field(es: &Vec<(Yaml, Yaml)>, key: &str) -> (r: Result<Vec<String>, ()>)
    ensures
        r matches Ok(v) ==> spec_str_list(entry_views(es@), key@) == Some(v.deep_view()),
        r is Err <==> spec_str_list(entry_views(es@), key@) is None,
{
    match dict_get(es, key) {
        None => {
            let empty: Vec<String> = Vec::new();
            proof {
                assert(empty.deep_view() =~= Seq::<Seq<char>>::empty());
            }
            Ok(empty)
        },
        Some(v) => match v {
            Yaml::List(items) => {
                let n = items.len();
                let mut out: Vec<String> = Vec::new();
                let mut i: usize = 0;
                proof {
                    assert(item_views(items@).subrange(0, 0) =~= Seq::<YamlV>::empty());
                    assert(out.deep_view() =~= Seq::<Seq<char>>::empty());
                }
                #[verifier::loop_isolation(false)]
                while i < n
                    invariant
                        i <= n,
                        n == items@.len(),
                        spec_strs_of(item_views(items@).subrange(0, i as int)) == Some(
                            out.deep_view(),
                        ),
                    decreases n - i,
                {
                    match &items[i] {
                        Yaml::Str(s) => {
                            let ghost prefix = item_views(items@).subrange(0, i as int);
                            let ghost old_out = out.deep_view();
                            out.push(s.clone());
                            proof {
                                let next = item_views(items@).subrange(0, i + 1);
                                assert(next.subrange(0, next.len() - 1) =~= prefix);
                                assert(next[next.len() - 1] == yaml_view(items@[i as int]));
                                assert(out.deep_view() =~= old_out.push(s@));
                            }
                        },
                        _ => {
                            proof {
                                let whole = item_views(items@);
                                assert(whole[i as int] == yaml_view(items@[i as int]));
                                assert(!(whole[i as int] is Str));
                                lemma_strs_of_bad(whole, i as int);
                                assert(yaml_view(*v) == YamlV::List(whole));
                            }
                            return Err(());
                        },
                    }
                    i = i + 1;
                }
                proof {
                    assert(item_views(items@).subrange(0, n as int) =~= item_views(items@));
                }
                Ok(out)
            },
            _ => Err(()),
        },
    }
}

/// A non-string item anywhere in `items` fails the whole list.
proof fn lemma_strs_of_bad(items: Seq<YamlV>, i: int)
    requires
        0 <= i < items.len(),
        !(items[i] is Str),
    ensures
        spec_strs_of(items) is None,
    decreases items.len(),
{
    if items.len() > 0 {
        if i < items.len() - 1 {
            lemma_strs_of_bad(items.subrange(0, items.len() - 1), i);
        }
    }
}

/// A non-string or unrecognized item anywhere in `items` fails the
/// whole flag list.
proof fn lemma_flags_of_bad(items: Seq<YamlV>, i: int)
    requires
        0 <= i < items.len(),
        match items[i] {
            YamlV::Str(s) => spec_flag_of(s) is None,
            _ => true,
        },
    ensures
        spec_flags_of(items) is None,
    decreases items.len(),
{
    if items.len() > 0 {
        if i < items.len() - 1 {
            lemma_flags_of_bad(items.subrange(0, items.len() - 1), i);
        }
    }
}

/// The flag a wire spelling stands for, if it is a recognized one.
pub fn flag_of(s: &str) -> (r: Option<Flag>)
    ensures
        r == spec_flag_of(s@),
{
    if str_eq(s, "onlyStrict") {
        Some(Flag::OnlyStrict)
    } else if str_eq(s, "noStrict") {
        Some(Flag::NoStrict)
    } else if str_eq(s, "module") {
        Some(Flag::Module)
    } else if str_eq(s, "raw") {
        Some(Flag::Raw)
    } else if str_eq(s, "async") {
        Some(Flag::Async)
    } else if str_eq(s, "generated") {
        Some(Flag::Generated)
    } else if str_eq(s, "canBlockIsFalse") || str_eq(s, "CanBlockIsFalse") {
        Some(Flag::CanBlockIsFalse)
    } else if str_eq(s, "canBlockIsTrue") || str_eq(s, "CanBlockIsTrue") {
        Some(Flag::CanBlockIsTrue)
    } else if str_eq(s, "nonDeterministic") || str_eq(s, "non-deterministic") {
        Some(Flag::NonDeterministic)
    } else {
        None
    }
}

/// The phase a wire spelling stands for, if it is a recognized one.
pub fn phase_of(s: &str) -> (r: Option<Phase>)
    ensures
        r == spec_phase_of(s@),
{
    if str_eq(s, "parse") {
        Some(Phase::Parse)
    } else if str_eq(s, "early") {
        Some(Phase::Early)
    } else if str_eq(s, "resolution") {
        Some(Phase::Resolution)
    } else if str_eq(s, "runtime") {
        Some(Phase::Runtime)
    } else {
        None
    }
}

/// Decodes the `flags` field of `es`.
fn flags_field(es: &Vec<(Yaml, Yaml)>) -> (r: Result<Vec<Flag>, ()>)
    ensures
        r matches Ok(v) ==> spec_flag_list(entry_views(es@)) == Some(v@),
        r is Err <==> spec_flag_list(entry_views(es@)) is None,
{
    match dict_get(es, "flags") {
        None => Ok(Vec::new()),
        Some(v) => match v {
            Yaml::List(items) => {
                let n = items.len();
                let mut out: Vec<Flag> = Vec::new();
                let mut i: usize = 0;
                proof {
                    assert(item_views(items@).subrange(0, 0) =~= Seq::<YamlV>::empty());
                }
                #[verifier::loop_isolation(false)]
                while i < n
                    invariant
                        i <= n,
                        n == items@.len(),
                        spec_flags_of(item_views(items@).subrange(0, i as int)) == Some(out@),
                    decreases n - i,
                {
                    let f = match &items[i] {
                        Yaml::Str(s) => flag_of(s.as_str()),
                        _ => None,
                    };
                    match f {
                        Some(flag) => {
                            let ghost prefix = item_views(items@).subrange(0, i as int);
                            out.push(flag);
                            proof {
                                let next = item_views(items@).subrange(0, i + 1);
                                assert(next.subrange(0, next.len() - 1) =~= prefix);
                                assert(next[next.len() - 1] == yaml_view(items@[i as int]));
                            }
                        },
                        None => {
                            proof {
                                let whole = item_views(items@);
                                assert(whole[i as int] == yaml_view(items@[i as int]));
                                lemma_flags_of_bad(whole, i as int);
                                assert(yaml_view(*v) == YamlV::List(whole));
                            }
                            return Err(());
                        },
                    }
                    i = i + 1;
                }
                proof {
                    assert(item_views(items@).subrange(0, n as int) =~= item_views(items@));
                }
                Ok(out)
            },
            _ => Err(()),
        },
    }
}

/// Decodes the `negative` field of `es`.
fn negative_field(es: &Vec<(Yaml, Yaml)>) -> (r: Result<Option<Negative>, ()>)
    ensures
        r matches Ok(v) ==> spec_negative(entry_views(es@)) == Some(v.deep_view()),
        r is Err <==> spec_negative(entry_views(es@)) is None,
{
    match dict_get(es, "negative") {
        None => Ok(None),
        Some(v) => match v {
            Yaml::Null => Ok(None),
            Yaml::Dict(nd) => {
                let phase = match dict_get(nd, "phase") {
                    Some(p) => match p {
                        Yaml::Str(p) => match phase_of(p.as_str()) {
                            Some(phase) => phase,
                            None => { return Err(()); },
                        },
                        _ => { return Err(()); },
                    },
                    None => { return Err(()); },
                };
                let k1 = dict_get(nd, "kind");
                let k2 = dict_get(nd, "type");
                if k1.is_some() && k2.is_some() {
                    return Err(());
                }
                let kv = if k1.is_some() { k1 } else { k2 };
                let kind = match kv {
                    None => None,
                    Some(kn) => match kn {
                        Yaml::Null => None,
                        Yaml::Str(s) => Some(s.clone()),
                        _ => { return Err(()); },
                    },
                };
                Ok(Some(Negative { phase, kind }))
            },
            _ => Err(()),
        },
    }
}

/// The error every structural schema failure reports.
fn schema_error() -> (e: Error)
    ensures
        e is Yaml,
{
    Error::Yaml(String::from_str("metadata does not fit the schema"))
}

/// Decodes a parsed metadata document against the schema.
pub fn decode_doc(y: &Yaml) -> (r: Result<Description, Error>)
    ensures
        r matches Ok(d) ==> spec_doc_decode(y@) == Some(d@),
        r is Err <==> spec_doc_decode(y@) is None,
        r matches Err(e) ==> e is Yaml,
{
    match y {
        Yaml::Dict(es) => {
            let id = match opt_str_field(es, "id") {
                Ok(v) => v,
                Err(_) => { return Err(schema_error()); },
            };
            let esid = match opt_str_field(es, "esid") {
                Ok(v) => v,
                Err(_) => { return Err(schema_error()); },
            };
            let es5id = match opt_str_field(es, "es5id") {
                Ok(v) => v,
                Err(_) => { return Err(schema_error()); },
            };
            let es6id = match opt_str_field(es, "es6id") {
                Ok(v) => v,
                Err(_) => { return Err(schema_error()); },
            };
            let info = match opt_str_field(es, "info") {
                Ok(v) => v,
                Err(_) => { return Err(schema_error()); },
            };
            let description = match opt_str_field(es, "description") {
                Ok(v) => v,
                Err(_) => { return Err(schema_error()); },
            };
            let negative = match negative_field(es) {
                Ok(v) => v,
                Err(_) => { return Err(schema_error()); },
            };
            let includes = match str_list_field(es, "includes") {
                Ok(v) => v,
                Err(_) => { return Err(schema_error()); },
            };
            let flags = match flags_field(es) {
                Ok(v) => v,
                Err(_) => { return Err(schema_error()); },
            };
            let locale = match str_list_field(es, "locale") {
                Ok(v) => v,
                Err(_) => { return Err(schema_error()); },
            };
            let features = match str_list_field(es, "features") {
                Ok(v) => v,
                Err(_) => { return Err(schema_error()); },
            };
            Ok(Description {
                id,
                esid,
                es5id,
                es6id,
                info,
                description,
                negative,
                includes,
                flags,
                locale,
                features,
            })
        },
        _ => Err(Error::Yaml(String::from_str("metadata is not a mapping"))),
    }
}

/// How a metadata text decodes, from the characters alone: the parsed
/// document, if the text is well-formed YAML, held against the schema.
pub open spec fn spec_decode_text(t: Seq<char>) -> Option<DescriptionV> {
    match yaml_doc_of(t) {
        None => None,
        Some(y) => spec_doc_decode(y),
    }
}

/// Decodes a normalized metadata text: parses it and holds the
/// document against the schema.
pub fn decode_description(text: &Vec<char>) -> (r: Result<Description, Error>)
    ensures
        r matches Ok(d) ==> spec_decode_text(text@) == Some(d@),
        r is Ok <==> spec_decode_text(text@) is Some,
        r matches Err(e) ==> e is Yaml,
{
    match parse_yaml(text) {
        Ok(y) => decode_doc(&y),
        Err(msg) => Err(Error::Yaml(msg)),
    }
}

/// `lookup` finds the entry at `k` when no earlier entry carries the
/// same key.
proof fn lemma_lookup_at(es: Seq<(YamlV, YamlV)>, key: Seq<char>, k: int)
    requires
        0 <= k < es.len(),
        es[k].0 == YamlV::Str(key),
        forall|j: int| 0 <= j < k ==> es[j].0 != YamlV::Str(key),
    ensures
        lookup(es, key) == Some(es[k].1),
    decreases k,
{
    if k > 0 {
        let rest = es.subrange(1, es.len() as int);
        assert forall|j: int| 0 <= j < k - 1 implies rest[j].0 != YamlV::Str(key) by {
            assert(rest[j] == es[j + 1]);
        }
        assert(rest[k - 1] == es[k]);
        lemma_lookup_at(rest, key, k - 1);
    }
}

/// `lookup` finds nothing when no entry carries the key.
proof fn lemma_lookup_absent(es: Seq<(YamlV, YamlV)>, key: Seq<char>)
    requires
        forall|j: int| 0 <= j < es.len() ==> es[j].0 != YamlV::Str(key),
    ensures
        lookup(es, key) is None,
    decreases es.len(),
{
    if es.len() > 0 {
        let rest = es.subrange(1, es.len() as int);
        assert forall|j: int| 0 <= j < rest.len() implies rest[j].0 != YamlV::Str(key) by {
            assert(rest[j] == es[j + 1]);
        }
        lemma_lookup_absent(rest, key);
    }
}

/// The canonical wire spelling of a flag.
pub fn flag_name(f: Flag) -> (r: String)
    ensures
        spec_flag_of(r@) == Some(f),
{
    proof {
        reveal_strlit("onlyStrict");
        reveal_strlit("noStrict");
        reveal_strlit("module");
        reveal_strlit("raw");
        reveal_strlit("async");
        reveal_strlit("generated");
        reveal_strlit("canBlockIsFalse");
        reveal_strlit("CanBlockIsFalse");
        reveal_strlit("canBlockIsTrue");
        reveal_strlit("CanBlockIsTrue");
        reveal_strlit("nonDeterministic");
        reveal_strlit("non-deterministic");
        assert("onlyStrict"@.len() == 10);
        assert("noStrict"@.len() == 8);
        assert("module"@.len() == 6);
        assert("raw"@.len() == 3);
        assert("async"@.len() == 5);
        assert("generated"@.len() == 9);
        assert("canBlockIsFalse"@.len() == 15);
        assert("CanBlockIsFalse"@.len() == 15);
        assert("canBlockIsTrue"@.len() == 14);
        assert("CanBlockIsTrue"@.len() == 14);
        assert("nonDeterministic"@.len() == 16);
        assert("non-deterministic"@.len() == 17);
    }
    match f {
        Flag::OnlyStrict => String::from_str("onlyStrict"),
        Flag::NoStrict => String::from_str("noStrict"),
        Flag::Module => String::from_str("module"),
        Flag::Raw => String::from_str("raw"),
        Flag::Async => String::from_str("async"),
        Flag::Generated => String::from_str("generated"),
        Flag::CanBlockIsFalse => String::from_str("canBlockIsFalse"),
        Flag::CanBlockIsTrue => String::from_str("canBlockIsTrue"),
        Flag::NonDeterministic => String::from_str("nonDeterministic"),
    }
}

/// The canonical wire spelling of a phase.
pub fn phase_name(p: Phase) -> (r: String)
    ensures
        spec_phase_of(r@) == Some(p),
{
    proof {
        reveal_strlit("parse");
        reveal_strlit("early");
        reveal_strlit("resolution");
        reveal_strlit("runtime");
        assert("parse"@.len() == 5);
        assert("early"@.len() == 5);
        assert("resolution"@.len() == 10);
        assert("runtime"@.len() == 7);
        assert("parse"@[0] == 'p');
        assert("early"@[0] == 'e');
    }
    match p {
        Phase::Parse => String::from_str("parse"),
        Phase::Early => String::from_str("early"),
        Phase::Resolution => String::from_str("resolution"),
        Phase::Runtime => String::from_str("runtime"),
    }
}

/// The node an optional string field re-encodes to.
fn opt_str_node(o: &Option<String>) -> (r: Yaml)
    ensures
        match o {
            Some(s) => yaml_view(r) == YamlV::Str(s@),
            None => yaml_view(r) == YamlV::Null,
        },
{
    match o {
        Some(s) => Yaml::Str(s.clone()),
        None => Yaml::Null,
    }
}

/// The sequence node a list of strings re-encodes to.
fn strings_to_yaml(v: &Vec<String>) -> (r: Vec<Yaml>)
    ensures
        spec_strs_of(item_views(r@)) == Some(v.deep_view()),
{
    let n = v.len();
    let mut out: Vec<Yaml> = Vec::new();
    let mut i: usize = 0;
    proof {
        assert(item_views(out@) =~= Seq::<YamlV>::empty());
        assert(v.deep_view().subrange(0, 0) =~= Seq::<Seq<char>>::empty());
    }
    #[verifier::loop_isolation(false)]
    while i < n
        invariant
            i <= n,
            spec_strs_of(item_views(out@)) == Some(v.deep_view().subrange(0, i as int)),
        decreases n - i,
    {
        let ghost prev = out@;
        let ghost prev_taken = v.deep_view().subrange(0, i as int);
        out.push(Yaml::Str(v[i].clone()));
        proof {
            assert(out@.subrange(0, out@.len() - 1) =~= prev);
            assert(item_views(out@).subrange(0, item_views(out@).len() - 1) =~= item_views(
                prev,
            ));
            assert(v.deep_view().subrange(0, i + 1) =~= prev_taken.push(v@[i as int]@));
        }
        i = i + 1;
    }
    proof {
        assert(v.deep_view().subrange(0, n as int) =~= v.deep_view());
    }
    out
}

/// The sequence node a list of flags re-encodes to, under the
/// canonical spellings.
fn flags_to_yaml(v: &Vec<Flag>) -> (r: Vec<Yaml>)
    ensures
        spec_flags_of(item_views(r@)) == Some(v@),
{
    let n = v.len();
    let mut out: Vec<Yaml> = Vec::new();
    let mut i: usize = 0;
    proof {
        assert(item_views(out@) =~= Seq::<YamlV>::empty());
        assert(v@.subrange(0, 0) =~= Seq::<Flag>::empty());
    }
    #[verifier::loop_isolation(false)]
    while i < n
        invariant
            i <= n,
            spec_flags_of(item_views(out@)) == Some(v@.subrange(0, i as int)),
        decreases n - i,
    {
        let ghost prev = out@;
        let ghost prev_taken = v@.subrange(0, i as int);
        out.push(Yaml::Str(flag_name(v[i])));
        proof {
            assert(out@.subrange(0, out@.len() - 1) =~= prev);
            assert(item_views(out@).subrange(0, item_views(out@).len() - 1) =~= item_views(
                prev,
            ));
            assert(v@.subrange(0, i + 1) =~= prev_taken.push(v@[i as int]));
        }
        i = i + 1;
    }
    proof {
        assert(v@.subrange(0, n as int) =~= v@);
    }
    out
}

/// Re-encodes metadata as a document tree that decodes back to it:
/// decoding what `encode_doc` returns yields exactly the metadata it
/// was given, so a decode–encode–decode round trip preserves every
/// field and every collection.
#[verifier::rlimit(50)]
pub fn encode_doc(d: &Description) -> (y: Yaml)
    ensures
        spec_doc_decode(y@) == Some(d@),
{
    proof {
        reveal_strlit("id");
        reveal_strlit("esid");
        reveal_strlit("es5id");
        reveal_strlit("es6id");
        reveal_strlit("info");
        reveal_strlit("description");
        reveal_strlit("negative");
        reveal_strlit("includes");
        reveal_strlit("flags");
        reveal_strlit("locale");
        reveal_strlit("features");
        reveal_strlit("phase");
        reveal_strlit("kind");
        reveal_strlit("type");
        assert("id"@.len() == 2);
        assert("esid"@.len() == 4);
        assert("es5id"@.len() == 5);
        assert("es6id"@.len() == 5);
        assert("info"@.len() == 4);
        assert("description"@.len() == 11);
        assert("negative"@.len() == 8);
        assert("includes"@.len() == 8);
        assert("flags"@.len() == 5);
        assert("locale"@.len() == 6);
        assert("features"@.len() == 8);
        assert("phase"@.len() == 5);
        assert("kind"@.len() == 4);
        assert("type"@.len() == 4);
        assert("es5id"@[2] == '5');
        assert("es6id"@[2] == '6');
        assert("esid"@[0] == 'e');
        assert("info"@[0] == 'i');
        assert("negative"@[0] == 'n');
        assert("includes"@[0] == 'i');
        assert("flags"@[0] == 'f');
        assert("features"@[0] == 'f');
        assert("kind"@[0] == 'k');
        assert("type"@[0] == 't');
    }
    let negative_node: Yaml = match &d.negative {
        None => Yaml::Null,
        Some(n) => {
            let mut nd: Vec<(Yaml, Yaml)> = Vec::new();
            nd.push((Yaml::Str(String::from_str("phase")), Yaml::Str(phase_name(n.phase))));
            nd.push((Yaml::Str(String::from_str("kind")), opt_str_node(&n.kind)));
            proof {
                let nv = entry_views(nd@);
                lemma_lookup_at(nv, "phase"@, 0);
                lemma_lookup_at(nv, "kind"@, 1);
                lemma_lookup_absent(nv, "type"@);
            }
            Yaml::Dict(nd)
        },
    };
    let mut es: Vec<(Yaml, Yaml)> = Vec::new();
    es.push((Yaml::Str(String::from_str("id")), opt_str_node(&d.id)));
    es.push((Yaml::Str(String::from_str("esid")), opt_str_node(&d.esid)));
    es.push((Yaml::Str(String::from_str("es5id")), opt_str_node(&d.es5id)));
    es.push((Yaml::Str(String::from_str("es6id")), opt_str_node(&d.es6id)));
    es.push((Yaml::Str(String::from_str("info")), opt_str_node(&d.info)));
    es.push((Yaml::Str(String::from_str("description")), opt_str_node(&d.description)));
    es.push((Yaml::Str(String::from_str("negative")), negative_node));
    es.push((Yaml::Str(String::from_str("includes")), Yaml::List(strings_to_yaml(&d.includes))));
    es.push((Yaml::Str(String::from_str("flags")), Yaml::List(flags_to_yaml(&d.flags))));
    es.push((Yaml::Str(String::from_str("locale")), Yaml::List(strings_to_yaml(&d.locale))));
    es.push((Yaml::Str(String::from_str("features")), Yaml::List(strings_to_yaml(&d.features))));
    proof {
        let ev = entry_views(es@);
        lemma_lookup_at(ev, "id"@, 0);
        lemma_lookup_at(ev, "esid"@, 1);
        lemma_lookup_at(ev, "es5id"@, 2);
        lemma_lookup_at(ev, "es6id"@, 3);
        lemma_lookup_at(ev, "info"@, 4);
        lemma_lookup_at(ev, "description"@, 5);
        lemma_lookup_at(ev, "negative"@, 6);
        lemma_lookup_at(ev, "includes"@, 7);
        lemma_lookup_at(ev, "flags"@, 8);
        lemma_lookup_at(ev, "locale"@, 9);
        lemma_lookup_at(ev, "features"@, 10);
    }
    Yaml::Dict(es)
}

/// Decoding is a function of the metadata text alone: decoding the
/// same normalized text twice yields equal metadata.
pub proof fn lemma_decode_idempotent(t1: Seq<char>, t2: Seq<char>)
    requires
        t1 == t2,
    ensures
        spec_decode_text(t1) == spec_decode_text(t2),
{
}

} // verus!

