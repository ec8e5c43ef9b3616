//! Templates: the entries of a collection's manifest and the bodies they
//! name.

use vstd::prelude::*;

use crate::scheme::last_segment;
use crate::text::{chars_of, concat_chars, rfind_char, string_of, subrange_chars};
use crate::yaml::{lookup, lookup_exec, parse_yaml, text_of, yaml_documents, Node};
use yaml_rust::ScanError;

verus! {

/// One template of a collection.
#[derive(Debug)]
pub struct Template {
    /// Template text, with placeholders.
    pub contents: String,
    /// Name of the collection that holds it.
    pub program_name: String,
    /// Appended to each generated file name; may be empty.
    pub extension: String,
    /// Where its renders go, below the output root.
    pub output_path: String,
    /// Its name in the collection's manifest.
    pub name: String,
}

/// A template as mathematical values.
pub struct TemplateView {
    pub contents: Seq<char>,
    pub program_name: Seq<char>,
    pub extension: Seq<char>,
    pub output_path: Seq<char>,
    pub name: Seq<char>,
}

impl View for Template {
    type V = TemplateView;

    open spec fn view(&self) -> TemplateView {
        TemplateView {
            contents: self.contents@,
            program_name: self.program_name@,
            extension: self.extension@,
            output_path: self.output_path@,
            name: self.name@,
        }
    }
}

/// One entry of a manifest: a template's name, output path and extension.
#[derive(Debug)]
pub struct ManifestEntry {
    pub name: String,
    pub output: String,
    pub extension: String,
}

impl View for ManifestEntry {
    type V = (Seq<char>, Seq<char>, Seq<char>);

    open spec fn view(&self) -> (Seq<char>, Seq<char>, Seq<char>) {
        (self.name@, self.output@, self.extension@)
    }
}

/// Why a manifest could not be read.
#[derive(Debug)]
pub enum ManifestError {
    /// The text is not valid YAML.
    Parse(ScanError),
    /// The text holds no document.
    NoDocument,
    /// The document is not a mapping.
    NotAMapping,
    /// The entry at this position lacks a string name, a mapping of
    /// fields, or a string `output`.
    BadEntry { position: usize },
}

/// The entry that a manifest key and value describe: `output` is
/// required, `extension` is empty unless it is a string.
pub open spec fn entry_of(k: Node, v: Node) -> Option<(Seq<char>, Seq<char>, Seq<char>)> {
    match v {
        Node::Mapping(fields) => match (text_of(k), lookup(fields@, "output"@)) {
            (Some(name), Some(o)) => match text_of(o) {
                Some(out) => Some(
                    (
                        name,
                        out,
                        match lookup(fields@, "extension"@) {
                            Some(e) => match text_of(e) {
                                Some(ext) => ext,
                                None => Seq::empty(),
                            },
                            None => Seq::empty(),
                        },
                    ),
                ),
                None => None,
            },
            _ => None,
        },
        _ => None,
    }
}

fn entry_exec(k: &Node, v: &Node) -> (r: Option<ManifestEntry>)
    ensures
        match r {
            Some(e) => entry_of(*k, *v) == Some(e@),
            None => entry_of(*k, *v) is None,
        },
{
    let fields = match v {
        Node::Mapping(fields) => fields,
        _ => {
            return None;
        },
    };
    let name = match k {
        Node::Text(name) => name,
        _ => {
            return None;
        },
    };
    let output = match lookup_exec(fields, &chars_of("output")) {
        Some(Node::Text(o)) => o,
        _ => {
            return None;
        },
    };
    let extension = match lookup_exec(fields, &chars_of("extension")) {
        Some(Node::Text(e)) => e.clone(),
        _ => String::new(),
    };
    Some(ManifestEntry { name: name.clone(), output: output.clone(), extension })
}

/// The entries of a parsed manifest document, in order.
pub fn manifest_entries(doc: &Node) -> (r: Result<Vec<ManifestEntry>, ManifestError>)
    ensures
        match *doc {
            Node::Mapping(es) => match r {
                Ok(v) => v@.len() == es@.len() && forall|i: int|
                    0 <= i < es@.len() ==> entry_of(#[trigger] es@[i].0, es@[i].1) == Some(
                        v@[i]@,
                    ),
                Err(ManifestError::BadEntry { position }) => position < es@.len() && entry_of(
                    es@[position as int].0,
                    es@[position as int].1,
                ) is None && forall|i: int|
                    0 <= i < position ==> entry_of(#[trigger] es@[i].0, es@[i].1) is Some,
                Err(_) => false,
            },
            _ => r matches Err(ManifestError::NotAMapping),
        },
{
    let es = match doc {
        Node::Mapping(es) => es,
        _ => {
            return Err(ManifestError::NotAMapping);
        },
    };
    let mut out: Vec<ManifestEntry> = Vec::new();
    let mut i: usize = 0;
    while i < es.len()
        invariant
            i <= es.len(),
            *doc == Node::Mapping(*es),
            out@.len() == i,
            forall|j: int| 0 <= j < i ==> entry_of(#[trigger] es@[j].0, es@[j].1) == Some(out@[j]@),
        decreases es.len() - i,
    {
        match entry_exec(&es[i].0, &es[i].1) {
            Some(e) => out.push(e),
            None => {
                return Err(ManifestError::BadEntry { position: i });
            },
        }
        i = i + 1;
    }
    Ok(out)
}

/// Reads the entries of a manifest from its text: the first document.
pub fn parse_manifest(text: &str) -> (r: Result<Vec<ManifestEntry>, ManifestError>)
    ensures
        match yaml_documents(text@) {
            None => r matches Err(ManifestError::Parse(_)),
            Some(docs) => if docs.len() == 0 {
                r matches Err(ManifestError::NoDocument)
            } else {
                match docs[0] {
                    Node::Mapping(es) => match r {
                        Ok(v) => v@.len() == es@.len() && forall|i: int|
                            0 <= i < es@.len() ==> entry_of(#[trigger] es@[i].0, es@[i].1)
                                == Some(v@[i]@),
                        Err(ManifestError::BadEntry { position }) => position < es@.len()
                            && entry_of(es@[position as int].0, es@[position as int].1) is None
                            && forall|i: int|
                            0 <= i < position ==> entry_of(#[trigger] es@[i].0, es@[i].1) is Some,
                        Err(_) => false,
                    },
                    _ => r matches Err(ManifestError::NotAMapping),
                }
            },
        },
{
    let docs = match parse_yaml(text) {
        Ok(docs) => docs,
        Err(e) => {
            return Err(ManifestError::Parse(e));
        },
    };
    if docs.len() == 0 {
        return Err(ManifestError::NoDocument);
    }
    manifest_entries(&docs[0])
}

/// Name of the collection in directory `dir`: its last path segment, a
/// trailing `/` aside.
pub open spec fn collection_name(dir: Seq<char>) -> Seq<char> {
    if dir.len() > 0 && dir.last() == '/' {
        last_segment(dir.drop_last())
    } else {
        last_segment(dir)
    }
}

/// The name of the collection in directory `dir`.
pub fn program_name(dir: &str) -> (r: String)
    ensures
        r@ == collection_name(dir@),
{
    let mut p = chars_of(dir);
    if p.len() > 0 && p[p.len() - 1] == '/' {
        p.pop();
    }
    let start = match rfind_char(&p, '/') {
        Some(i) => i + 1,
        None => 0,
    };
    string_of(&subrange_chars(&p, start, p.len()))
}

/// Where the manifest of the collection in `dir` is looked for, in order.
pub fn manifest_paths(dir: &str) -> (r: (String, String))
    ensures
        r.0@ == dir@ + "/templates/config.yaml"@,
        r.1@ == dir@ + "/templates/config.yml"@,
{
    let d = chars_of(dir);
    (
        string_of(&concat_chars(&d, &chars_of("/templates/config.yaml"))),
        string_of(&concat_chars(&d, &chars_of("/templates/config.yml"))),
    )
}

/// Path of the body of template `name` in the collection in `dir`.
pub open spec fn body_path(dir: Seq<char>, name: Seq<char>) -> Seq<char> {
    dir + "/templates/"@ + name + ".mustache"@
}

/// The path of the body of template `name` in the collection in `dir`.
pub fn template_path(dir: &str, name: &str) -> (r: String)
    ensures
        r@ == body_path(dir@, name@),
{
    let p = concat_chars(&chars_of(dir), &chars_of("/templates/"));
    let p = concat_chars(&p, &chars_of(name));
    string_of(&concat_chars(&p, &chars_of(".mustache")))
}

/// The template that a manifest entry and its body give.
pub open spec fn template_of(
    program: Seq<char>,
    e: (Seq<char>, Seq<char>, Seq<char>),
    body: Seq<char>,
) -> TemplateView {
    TemplateView { contents: body, program_name: program, extension: e.2, output_path: e.1, name: e.0 }
}

/// The templates of the first `n` entries whose body could be read, in order.
pub open spec fn templates_of(
    program: Seq<char>,
    es: Seq<(Seq<char>, Seq<char>, Seq<char>)>,
    bodies: Seq<Option<Seq<char>>>,
    n: int,
) -> Seq<TemplateView>
    decreases n,
{
    if n <= 0 {
        Seq::empty()
    } else {
        templates_of(program, es, bodies, n - 1) + match bodies[n - 1] {
            Some(b) => seq![template_of(program, es[n - 1], b)],
            None => Seq::empty(),
        }
    }
}

/// The names of the first `n` entries whose body could not be read.
pub open spec fn missing_of(
    es: Seq<(Seq<char>, Seq<char>, Seq<char>)>,
    bodies: Seq<Option<Seq<char>>>,
    n: int,
) -> Seq<Seq<char>>
    decreases n,
{
    if n <= 0 {
        Seq::empty()
    } else {
        missing_of(es, bodies, n - 1) + match bodies[n - 1] {
            Some(b) => Seq::empty(),
            None => seq![es[n - 1].0],
        }
    }
}

/// The templates kept when only entry `j` lacks its body, for the first `n`
/// entries.
pub open spec fn kept_without(
    program: Seq<char>,
    es: Seq<(Seq<char>, Seq<char>, Seq<char>)>,
    bodies: Seq<Option<Seq<char>>>,
    j: int,
    n: int,
) -> Seq<TemplateView> {
    if n <= j {
        Seq::new(n as nat, |i: int| template_of(program, es[i], bodies[i]->0))
    } else {
        Seq::new(
            (n - 1) as nat,
            |i: int|
                {
                    let k = if i < j {
                        i
                    } else {
                        i + 1
                    };
                    template_of(program, es[k], bodies[k]->0)
                },
        )
    }
}

proof fn lemma_missing_prefix(
    program: Seq<char>,
    es: Seq<(Seq<char>, Seq<char>, Seq<char>)>,
    bodies: Seq<Option<Seq<char>>>,
    j: int,
    n: int,
)
    requires
        es.len() == bodies.len(),
        0 <= j < es.len(),
        0 <= n <= es.len(),
        bodies[j] is None,
        forall|i: int| 0 <= i < bodies.len() && i != j ==> bodies[i] is Some,
    ensures
        templates_of(program, es, bodies, n) == kept_without(program, es, bodies, j, n),
        missing_of(es, bodies, n) == if n <= j {
            Seq::<Seq<char>>::empty()
        } else {
            seq![es[j].0]
        },
    decreases n,
{
    if n > 0 {
        lemma_missing_prefix(program, es, bodies, j, n - 1);
        assert(templates_of(program, es, bodies, n) =~= kept_without(program, es, bodies, j, n));
        assert(missing_of(es, bodies, n) =~= if n <= j {
            Seq::<Seq<char>>::empty()
        } else {
            seq![es[j].0]
        });
    } else {
        assert(kept_without(program, es, bodies, j, 0) =~= Seq::empty());
    }
}

/// An entry whose body is missing is the only one left out: every other
/// entry becomes a template, in order, and that entry alone is named
/// missing.
pub proof fn lemma_missing_body_skipped(
    program: Seq<char>,
    es: Seq<(Seq<char>, Seq<char>, Seq<char>)>,
    bodies: Seq<Option<Seq<char>>>,
    j: int,
)
    requires
        es.len() == bodies.len(),
        0 <= j < es.len(),
        bodies[j] is None,
        forall|i: int| 0 <= i < bodies.len() && i != j ==> bodies[i] is Some,
    ensures
        templates_of(program, es, bodies, es.len() as int) == kept_without(
            program,
            es,
            bodies,
            j,
            es.len() as int,
        ),
        missing_of(es, bodies, es.len() as int) == seq![es[j].0],
{
    lemma_missing_prefix(program, es, bodies, j, es.len() as int);
}

pub open spec fn entries_view(v: Seq<ManifestEntry>) -> Seq<(Seq<char>, Seq<char>, Seq<char>)> {
    v.map_values(|e: ManifestEntry| e@)
}

pub open spec fn bodies_view(v: Seq<Option<String>>) -> Seq<Option<Seq<char>>> {
    v.map_values(|b: Option<String>| crate::scheme::opt_view(b))
}

pub open spec fn templates_view(v: Seq<Template>) -> Seq<TemplateView> {
    v.map_values(|t: Template| t@)
}

/// The templates of a collection and the names of those left out.
#[derive(Debug)]
pub struct Collection {
    pub templates: Vec<Template>,
    pub missing: Vec<String>,
}

/// Builds the templates of the collection in `dir` from its manifest
/// entries and, for each, its body (`None` where the body could not be
/// read). An entry without a body is left out and named in `missing`;
/// the others are kept, in order.
pub fn create_templates(dir: &str, entries: &Vec<ManifestEntry>, bodies: &Vec<Option<String>>) -> (r: Collection)
    requires
        entries.len() == bodies.len(),
    ensures
        templates_view(r.templates@) == templates_of(
            collection_name(dir@),
            entries_view(entries@),
            bodies_view(bodies@),
            entries.len() as int,
        ),
        r.missing@.map_values(|s: String| s@) == missing_of(
            entries_view(entries@),
            bodies_view(bodies@),
            entries.len() as int,
        ),
{
    let program = program_name(dir);
    let ghost es = entries_view(entries@);
    let ghost bs = bodies_view(bodies@);
    let mut templates: Vec<Template> = Vec::new();
    let mut missing: Vec<String> = Vec::new();
    let mut i: usize = 0;
    assert(templates_view(templates@) =~= templates_of(program@, es, bs, 0));
    assert(missing@.map_values(|s: String| s@) =~= missing_of(es, bs, 0));
    while i < entries.len()
        invariant
            i <= entries.len(),
            entries.len() == bodies.len(),
            es == entries_view(entries@),
            bs == bodies_view(bodies@),
            program@ == collection_name(dir@),
            templates_view(templates@) == templates_of(program@, es, bs, i as int),
            missing@.map_values(|s: String| s@) == missing_of(es, bs, i as int),
        decreases entries.len() - i,
    {
        let e = &entries[i];
        match &bodies[i] {
            Some(b) => {
                let ghost before = templates@;
                templates.push(
                    Template {
                        contents: b.clone(),
                        program_name: program.clone(),
                        extension: e.extension.clone(),
                        output_path: e.output.clone(),
                        name: e.name.clone(),
                    },
                );
                assert(templates_view(templates@) =~= templates_view(before) + seq![
                    template_of(program@, es[i as int], bs[i as int]->0),
                ]);
                assert(missing@.map_values(|s: String| s@) =~= missing_of(es, bs, i as int)
                    + Seq::empty());
            },
            None => {
                let ghost before = missing@;
                missing.push(e.name.clone());
                assert(missing@.map_values(|s: String| s@) =~= before.map_values(|s: String| s@)
                    + seq![es[i as int].0]);
                assert(templates_view(templates@) =~= templates_of(program@, es, bs, i as int)
                    + Seq::empty());
            },
        }
        i = i + 1;
    }
    Collection { templates, missing }
}

} // verus!
