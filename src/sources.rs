//! The source lists that an update reads: where the template and scheme
//! catalogs live, and the repositories each catalog names.

use vstd::prelude::*;

use crate::text::{chars_of, concat_chars, string_of};
use crate::yaml::{lookup, lookup_exec, parse_yaml, text_chars, text_of, yaml_documents, Node};
use yaml_rust::ScanError;

verus! {

/// Where the template and scheme catalogs are fetched from.
#[derive(Debug)]
pub struct Sources {
    pub templates: String,
    pub schemes: String,
}

/// Why a source list could not be read.
#[derive(Debug)]
pub enum SourcesError {
    /// The text is not valid YAML.
    Parse(ScanError),
    /// The text holds no document.
    NoDocument,
    /// The document is not a mapping.
    NotAMapping,
    /// This key is absent or its value is not a string.
    MissingKey { key: String },
    /// The entry at this position does not map a string to a string.
    BadEntry { position: usize },
}

/// The string value of field `key`, if it has one.
pub open spec fn field_text(es: Seq<(Node, Node)>, key: Seq<char>) -> Option<Seq<char>> {
    match lookup(es, key) {
        Some(n) => text_of(n),
        None => None,
    }
}

/// The entries of the first document of `text`, when it is a mapping.
pub open spec fn first_mapping(text: Seq<char>) -> Option<Seq<(Node, Node)>> {
    match yaml_documents(text) {
        Some(docs) => if docs.len() > 0 {
            match docs[0] {
                Node::Mapping(es) => Some(es@),
                _ => None,
            }
        } else {
            None
        },
        None => None,
    }
}

fn read_mapping(text: &str) -> (r: Result<Vec<(Node, Node)>, SourcesError>)
    ensures
        match r {
            Ok(es) => first_mapping(text@) == Some(es@),
            Err(SourcesError::Parse(_)) => yaml_documents(text@) is None,
            Err(SourcesError::NoDocument) => yaml_documents(text@) matches Some(d) && d.len() == 0,
            Err(SourcesError::NotAMapping) => yaml_documents(text@) matches Some(d) && d.len() > 0
                && !(d[0] is Mapping),
            Err(_) => false,
        },
{
    let mut docs = match parse_yaml(text) {
        Ok(docs) => docs,
        Err(e) => {
            return Err(SourcesError::Parse(e));
        },
    };
    if docs.len() == 0 {
        return Err(SourcesError::NoDocument);
    }
    let ghost d = docs@;
    let first = docs.swap_remove(0);
    assert(first == d[0]);
    match first {
        Node::Mapping(es) => Ok(es),
        _ => Err(SourcesError::NotAMapping),
    }
}

fn field_string(es: &Vec<(Node, Node)>, key: &str) -> (r: Result<String, SourcesError>)
    ensures
        match r {
            Ok(s) => field_text(es@, key@) == Some(s@),
            Err(SourcesError::MissingKey { key: k }) => field_text(es@, key@) is None && k@ == key@,
            Err(_) => false,
        },
{
    match lookup_exec(es, &chars_of(key)) {
        Some(n) => match text_chars(n) {
            Some(v) => Ok(string_of(&v)),
            None => Err(SourcesError::MissingKey { key: string_of(&chars_of(key)) }),
        },
        None => Err(SourcesError::MissingKey { key: string_of(&chars_of(key)) }),
    }
}

/// The catalog locations that the entries of a source list give: its
/// `templates` and `schemes` strings.
pub fn sources_from_entries(es: &Vec<(Node, Node)>) -> (r: Result<Sources, SourcesError>)
    ensures
        match r {
            Ok(s) => field_text(es@, "templates"@) == Some(s.templates@) && field_text(
                es@,
                "schemes"@,
            ) == Some(s.schemes@),
            Err(SourcesError::MissingKey { key }) => (key@ == "templates"@ && field_text(
                es@,
                "templates"@,
            ) is None) || (key@ == "schemes"@ && field_text(es@, "templates"@) is Some && field_text(
                es@,
                "schemes"@,
            ) is None),
            Err(_) => false,
        },
{
    let templates = field_string(es, "templates")?;
    let schemes = field_string(es, "schemes")?;
    Ok(Sources { templates, schemes })
}

/// Reads the catalog locations from the text of a source list.
pub fn parse_sources(text: &str) -> (r: Result<Sources, SourcesError>)
    ensures
        match first_mapping(text@) {
            Some(es) => match r {
                Ok(s) => field_text(es, "templates"@) == Some(s.templates@) && field_text(
                    es,
                    "schemes"@,
                ) == Some(s.schemes@),
                Err(SourcesError::MissingKey { key }) => (key@ == "templates"@ && field_text(
                    es,
                    "templates"@,
                ) is None) || (key@ == "schemes"@ && field_text(es, "templates"@) is Some
                    && field_text(es, "schemes"@) is None),
                Err(_) => false,
            },
            None => r matches Err(
                SourcesError::Parse(_) | SourcesError::NoDocument | SourcesError::NotAMapping,
            ),
        },
{
    let es = read_mapping(text)?;
    sources_from_entries(&es)
}

/// The repository that an entry of a catalog names: a name and a URL.
pub open spec fn repository_of(k: Node, v: Node) -> Option<(Seq<char>, Seq<char>)> {
    match (text_of(k), text_of(v)) {
        (Some(name), Some(url)) => Some((name, url)),
        _ => None,
    }
}

/// The repositories that the entries of a catalog name, in order: each
/// entry maps a name to a URL.
pub fn repositories_from_entries(es: &Vec<(Node, Node)>) -> (r: Result<Vec<(String, String)>, SourcesError>)
    ensures
        match r {
            Ok(v) => v@.len() == es@.len() && forall|i: int|
                0 <= i < es@.len() ==> repository_of(#[trigger] es@[i].0, es@[i].1) == Some(
                    (v@[i].0@, v@[i].1@),
                ),
            Err(SourcesError::BadEntry { position }) => position < es@.len() && repository_of(
                es@[position as int].0,
                es@[position as int].1,
            ) is None && forall|i: int|
                0 <= i < position ==> repository_of(#[trigger] es@[i].0, es@[i].1) is Some,
            Err(_) => false,
        },
{
    let mut out: Vec<(String, String)> = Vec::new();
    let mut i: usize = 0;
    while i < es.len()
        invariant
            i <= es.len(),
            out@.len() == i,
            forall|j: int|
                0 <= j < i ==> repository_of(#[trigger] es@[j].0, es@[j].1) == Some(
                    (out@[j].0@, out@[j].1@),
                ),
        decreases es.len() - i,
    {
        match (text_chars(&es[i].0), text_chars(&es[i].1)) {
            (Some(name), Some(url)) => out.push((string_of(&name), string_of(&url))),
            _ => {
                return Err(SourcesError::BadEntry { position: i });
            },
        }
        i = i + 1;
    }
    Ok(out)
}

/// Reads the repositories of a catalog from its text.
pub fn parse_repositories(text: &str) -> (r: Result<Vec<(String, String)>, SourcesError>)
    ensures
        match first_mapping(text@) {
            Some(es) => match r {
                Ok(v) => v@.len() == es.len() && forall|i: int|
                    0 <= i < es.len() ==> repository_of(#[trigger] es[i].0, es[i].1) == Some(
                        (v@[i].0@, v@[i].1@),
                    ),
                Err(SourcesError::BadEntry { position }) => position < es.len() && repository_of(
                    es[position as int].0,
                    es[position as int].1,
                ) is None && forall|i: int|
                    0 <= i < position ==> repository_of(#[trigger] es[i].0, es[i].1) is Some,
                Err(_) => false,
            },
            None => r matches Err(
                SourcesError::Parse(_) | SourcesError::NoDocument | SourcesError::NotAMapping,
            ),
        },
{
    let es = read_mapping(text)?;
    repositories_from_entries(&es)
}

/// Where repository `name` of a catalog is cloned: `<dir>/<name>`.
pub fn clone_destination(dir: &str, name: &str) -> (r: String)
    ensures
        r@ == dir@ + "/"@ + name@,
{
    string_of(&concat_chars(&concat_chars(&chars_of(dir), &chars_of("/")), &chars_of(name)))
}

} // verus!
