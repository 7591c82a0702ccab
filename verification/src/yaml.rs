//! A plain document tree for the metadata text, and the trusted parse
//! that fills it.
//!
//! The embedded metadata is a YAML document.  Parsing YAML itself is
//! delegated to `serde_yaml`; everything this crate decides about the
//! parsed document is decided over the [`Yaml`] tree below, which holds
//! only plain values and is fully visible to the verifier.

use vstd::prelude::*;

verus! {

/// One node of a parsed YAML document.
///
/// Scalars other than strings never satisfy the metadata schema, but
/// they are kept apart so that the decoder can reject them precisely.
/// Mapping keys are nodes themselves; the schema only accepts string
/// keys and the decoder checks that where it looks a key up.
pub enum Yaml {
    /// The null scalar.
    Null,
    /// A boolean scalar.
    Bool(bool),
    /// A numeric scalar, carried as its textual form.
    Num(String),
    /// A string scalar.
    Str(String),
    /// A sequence of nodes.
    List(Vec<Yaml>),
    /// A mapping, as its entries in document order.
    Dict(Vec<(Yaml, Yaml)>),
}

/// The mathematical shape of a [`Yaml`] node.
pub enum YamlV {
    Null,
    Bool(bool),
    Num(Seq<char>),
    Str(Seq<char>),
    List(Seq<YamlV>),
    Dict(Seq<(YamlV, YamlV)>),
}

/// The shape of a node: every string becomes its character sequence,
/// every collection the sequence of the shapes of its elements.
pub open spec fn yaml_view(y: Yaml) -> YamlV
    decreases y,
{
    match y {
        Yaml::Null => YamlV::Null,
        Yaml::Bool(b) => YamlV::Bool(b),
        Yaml::Num(s) => YamlV::Num(s@),
        Yaml::Str(s) => YamlV::Str(s@),
        Yaml::List(items) => YamlV::List(item_views(items@)),
        Yaml::Dict(entries) => YamlV::Dict(entry_views(entries@)),
    }
}

/// The shapes of the nodes of a sequence, in order.
pub open spec fn item_views(s: Seq<Yaml>) -> Seq<YamlV>
    decreases s,
{
    if s.len() == 0 {
        Seq::empty()
    } else {
        item_views(s.subrange(0, s.len() - 1)).push(yaml_view(s[s.len() - 1]))
    }
}

/// The shapes of the entries of a mapping, in order.
pub open spec fn entry_views(s: Seq<(Yaml, Yaml)>) -> Seq<(YamlV, YamlV)>
    decreases s,
{
    if s.len() == 0 {
        Seq::empty()
    } else {
        entry_views(s.subrange(0, s.len() - 1)).push(
            (yaml_view(s[s.len() - 1].0), yaml_view(s[s.len() - 1].1)),
        )
    }
}

/// Each position of `item_views(s)` carries the shape of the node at
/// the same position of `s`.
pub broadcast proof fn lemma_item_views(s: Seq<Yaml>)
    ensures
        (#[trigger] item_views(s)).len() == s.len(),
        forall|i: int| 0 <= i < s.len() ==> item_views(s)[i] == yaml_view(s[i]),
    decreases s.len(),
{
    if s.len() > 0 {
        lemma_item_views(s.subrange(0, s.len() - 1));
    }
}

/// Each position of `entry_views(s)` carries the shapes of the entry at
/// the same position of `s`.
pub broadcast proof fn lemma_entry_views(s: Seq<(Yaml, Yaml)>)
    ensures
        (#[trigger] entry_views(s)).len() == s.len(),
        forall|i: int| 0 <= i < s.len() ==> entry_views(s)[i]
            == (yaml_view(s[i].0), yaml_view(s[i].1)),
    decreases s.len(),
{
    if s.len() > 0 {
        lemma_entry_views(s.subrange(0, s.len() - 1));
    }
}

impl View for Yaml {
    type V = YamlV;

    open spec fn view(&self) -> YamlV {
        yaml_view(*self)
    }
}

/// The document that the metadata text parses to, or `None` where it is
/// not well-formed YAML.  YAML parsing is a pure function of the text,
/// so the parse result bears a name; nothing but the trusted items below
/// says anything about it.
pub uninterp spec fn yaml_doc_of(text: Seq<char>) -> Option<YamlV>;

#[verifier::external_type_specification]
#[verifier::external_body]
pub struct ExValue(serde_yaml::Value);

/// Relies on the `serde_yaml::Value` variants: each arm moves one
/// variant of the parsed document into the corresponding [`Yaml`] node;
/// a tagged value stands for its underlying value.
#[verifier::external_body]
fn convert(v: serde_yaml::Value) -> Yaml {
    match v {
        serde_yaml::Value::Null => Yaml::Null,
        serde_yaml::Value::Bool(b) => Yaml::Bool(b),
        serde_yaml::Value::Number(n) => Yaml::Num(n.to_string()),
        serde_yaml::Value::String(s) => Yaml::Str(s),
        serde_yaml::Value::Sequence(items) => Yaml::List(items.into_iter().map(convert).collect()),
        serde_yaml::Value::Mapping(m) => Yaml::Dict(
            m.into_iter().map(|(k, w)| (convert(k), convert(w))).collect(),
        ),
        serde_yaml::Value::Tagged(t) => convert(t.value),
    }
}

/// Relies on `serde_yaml::from_str::<serde_yaml::Value>`: the text
/// parses to a single document, a pure function of the text alone, here
/// named `yaml_doc_of`; on failure the diagnostic text is returned.
#[verifier::external_body]
pub fn parse_yaml(text: &Vec<char>) -> (r: Result<Yaml, String>)
    ensures
        r is Ok <==> yaml_doc_of(text@) is Some,
        r matches Ok(y) ==> yaml_doc_of(text@) == Some(y@),
{
    let s: String = text.iter().collect();
    match serde_yaml::from_str::<serde_yaml::Value>(&s) {
        Ok(v) => Ok(convert(v)),
        Err(e) => Err(e.to_string()),
    }
}

} // verus!
