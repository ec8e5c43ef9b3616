//! Parsed YAML documents, as the library sees them.

use vstd::prelude::*;

use crate::text::{chars_equal, chars_of};
use yaml_rust::{ScanError, Yaml, YamlLoader};

verus! {

#[verifier::external_type_specification]
#[verifier::external_body]
pub struct ExScanError(ScanError);

#[verifier::external_type_specification]
#[verifier::external_body]
pub struct ExYaml(Yaml);

/// One node of a parsed document. Scalars other than strings (numbers,
/// booleans, null) and aliases are all `Other`.
#[derive(Debug)]
pub enum Node {
    Text(String),
    Mapping(Vec<(Node, Node)>),
    List(Vec<Node>),
    Other,
}

/// The documents that the YAML parser reads from `text`, or `None` where it
/// rejects the text.
pub uninterp spec fn yaml_documents(text: Seq<char>) -> Option<Seq<Node>>;

/// Relies on `yaml_rust::YamlLoader::load_from_str`: its result depends on
/// the text alone; each document comes back converted node for node.
#[verifier::external_body]
pub fn parse_yaml(text: &str) -> (r: Result<Vec<Node>, ScanError>)
    ensures
        match r {
            Ok(docs) => yaml_documents(text@) == Some(docs@),
            Err(_) => yaml_documents(text@) is None,
        },
{
    YamlLoader::load_from_str(text).map(|docs| docs.into_iter().map(node_of).collect())
}

/// The characters of a string node.
pub open spec fn text_of(n: Node) -> Option<Seq<char>> {
    match n {
        Node::Text(s) => Some(s@),
        _ => None,
    }
}

/// The characters of a string node.
pub fn text_chars(n: &Node) -> (r: Option<Vec<char>>)
    ensures
        match r {
            Some(v) => text_of(*n) == Some(v@),
            None => text_of(*n) is None,
        },
{
    match n {
        Node::Text(s) => Some(chars_of(s.as_str())),
        _ => None,
    }
}

/// The value of the first field of `es` whose key is the string `key`.
pub open spec fn lookup(es: Seq<(Node, Node)>, key: Seq<char>) -> Option<Node>
    decreases es.len(),
{
    if es.len() == 0 {
        None
    } else if text_of(es[0].0) == Some(key) {
        Some(es[0].1)
    } else {
        lookup(es.drop_first(), key)
    }
}

/// The first field of `es` whose key is the string `key`.
pub fn lookup_exec<'a>(es: &'a Vec<(Node, Node)>, key: &Vec<char>) -> (r: Option<&'a Node>)
    ensures
        match r {
            Some(n) => lookup(es@, key@) == Some(*n),
            None => lookup(es@, key@) is None,
        },
{
    let mut i: usize = 0;
    assert(es@.subrange(0, es@.len() as int) =~= es@);
    while i < es.len()
        invariant
            i <= es.len(),
            lookup(es@.subrange(i as int, es@.len() as int), key@) == lookup(es@, key@),
        decreases es.len() - i,
    {
        let ghost rest = es@.subrange(i as int, es@.len() as int);
        assert(rest.drop_first() =~= es@.subrange(i + 1, es@.len() as int));
        if let Node::Text(k) = &es[i].0 {
            if chars_equal(&chars_of(k.as_str()), key) {
                return Some(&es[i].1);
            }
        }
        i = i + 1;
    }
    None
}

/// Converts one `yaml_rust::Yaml` value into a `Node`, variant for variant;
/// the conversion step of `parse_yaml`.
#[verifier::external_body]
fn node_of(y: Yaml) -> Node {
    match y {
        Yaml::String(s) => Node::Text(s),
        Yaml::Hash(h) => Node::Mapping(h.into_iter().map(|(k, v)| (node_of(k), node_of(v))).collect()),
        Yaml::Array(a) => Node::List(a.into_iter().map(node_of).collect()),
        Yaml::Real(_) | Yaml::Integer(_) | Yaml::Boolean(_) => Node::Other,
        Yaml::Alias(_) | Yaml::Null | Yaml::BadValue => Node::Other,
    }
}

} // verus!
