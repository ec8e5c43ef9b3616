//! Palettes: sixteen color slots with a name, an author and an identifier,
//! read from a parsed scheme document.

use vstd::prelude::*;

use crate::text::{
    chars_equal, chars_of, last_index_of, replace_all, replace_chars, rfind_char, string_of,
    subrange_chars,
};
use crate::yaml::{parse_yaml, text_chars, text_of, yaml_documents, Node};
use yaml_rust::ScanError;

verus! {

/// Number of color slots in a palette.
pub const SLOT_COUNT: usize = 16;

/// Upper-case hex digit of `i` in `0..16`.
pub open spec fn hex_upper(i: int) -> char {
    if i < 10 {
        ((i + 48) as u8) as char
    } else {
        ((i + 55) as u8) as char
    }
}

/// Name of slot `i`: `base00` through `base0F`.
pub open spec fn slot_name(i: int) -> Seq<char> {
    seq!['b', 'a', 's', 'e', '0', hex_upper(i)]
}

/// The first slot at or after `i` whose name is `key`.
pub open spec fn slot_from(key: Seq<char>, i: int) -> Option<int>
    decreases 16 - i,
{
    if i < 0 || i >= 16 {
        None
    } else if key == slot_name(i) {
        Some(i)
    } else {
        slot_from(key, i + 1)
    }
}

/// The slot whose name is `key`, if any.
pub open spec fn slot_of(key: Seq<char>) -> Option<int> {
    slot_from(key, 0)
}

/// A palette. `colors[i]` is the value of slot `slot_name(i)`, `None` where
/// the scheme file does not set it; slots past the sixteenth are ignored.
#[derive(Debug)]
pub struct Scheme {
    pub name: String,
    pub author: String,
    pub slug: String,
    pub colors: Vec<Option<String>>,
}

/// A palette as mathematical values.
pub struct SchemeView {
    pub name: Seq<char>,
    pub author: Seq<char>,
    pub slug: Seq<char>,
    pub colors: Seq<Option<Seq<char>>>,
}

pub open spec fn opt_view(c: Option<String>) -> Option<Seq<char>> {
    match c {
        Some(s) => Some(s@),
        None => None,
    }
}

impl View for Scheme {
    type V = SchemeView;

    open spec fn view(&self) -> SchemeView {
        SchemeView {
            name: self.name@,
            author: self.author@,
            slug: self.slug@,
            colors: self.colors@.map_values(|c: Option<String>| opt_view(c)),
        }
    }
}

/// Why a scheme document could not be read.
#[derive(Debug)]
pub enum SchemeError {
    /// The text is not valid YAML.
    Parse(ScanError),
    /// The text holds no document.
    NoDocument,
    /// The document is not a mapping.
    NotAMapping,
    /// A recognized key has a value that is not a string.
    NotText { key: String },
}

/// A palette with identifier `slug` and nothing set.
pub open spec fn empty_scheme(slug: Seq<char>) -> SchemeView {
    SchemeView {
        name: Seq::empty(),
        author: Seq::empty(),
        slug,
        colors: Seq::new(16, |i: int| None),
    }
}

/// Whether `key` is one that a scheme document sets.
pub open spec fn is_scheme_key(key: Seq<char>) -> bool {
    key == "scheme"@ || key == "author"@ || slot_of(key) is Some
}

/// The palette after one entry of the document: `scheme` sets the name,
/// `author` the author, a slot name that slot; other keys change nothing.
/// A recognized key whose value is not a string is an error naming it.
pub open spec fn apply_entry(s: SchemeView, k: Node, v: Node) -> Result<SchemeView, Seq<char>> {
    match k {
        Node::Text(key) => if !is_scheme_key(key@) {
            Ok(s)
        } else {
            match text_of(v) {
                None => Err(key@),
                Some(val) => if key@ == "scheme"@ {
                    Ok(SchemeView { name: val, author: s.author, slug: s.slug, colors: s.colors })
                } else if key@ == "author"@ {
                    Ok(SchemeView { name: s.name, author: val, slug: s.slug, colors: s.colors })
                } else {
                    Ok(
                        SchemeView {
                            name: s.name,
                            author: s.author,
                            slug: s.slug,
                            colors: s.colors.update(slot_of(key@)->0, Some(val)),
                        },
                    )
                },
            }
        },
        _ => Ok(s),
    }
}

/// The palette that the entries give, in order, starting from nothing set.
pub open spec fn scheme_of_entries(slug: Seq<char>, es: Seq<(Node, Node)>) -> Result<SchemeView, Seq<char>>
    decreases es.len(),
{
    if es.len() == 0 {
        Ok(empty_scheme(slug))
    } else {
        match scheme_of_entries(slug, es.drop_last()) {
            Ok(s) => apply_entry(s, es.last().0, es.last().1),
            Err(e) => Err(e),
        }
    }
}

proof fn lemma_slot_from_range(key: Seq<char>, i: int)
    ensures
        slot_from(key, i) matches Some(j) ==> i <= j < 16,
    decreases 16 - i,
{
    if 0 <= i < 16 && key != slot_name(i) {
        lemma_slot_from_range(key, i + 1);
    }
}

proof fn lemma_slot_of_range(key: Seq<char>)
    ensures
        slot_of(key) matches Some(j) ==> 0 <= j < 16,
{
    lemma_slot_from_range(key, 0);
}

/// Once an entry fails, the whole document fails with that entry's key.
proof fn lemma_error_persists(slug: Seq<char>, es: Seq<(Node, Node)>, i: int, key: Seq<char>)
    requires
        0 <= i <= es.len(),
        scheme_of_entries(slug, es.subrange(0, i)) == Err::<SchemeView, Seq<char>>(key),
    ensures
        scheme_of_entries(slug, es) == Err::<SchemeView, Seq<char>>(key),
    decreases es.len() - i,
{
    if i < es.len() {
        assert(es.subrange(0, i + 1).drop_last() =~= es.subrange(0, i));
        lemma_error_persists(slug, es, i + 1, key);
    } else {
        assert(es.subrange(0, i) =~= es);
    }
}

/// What follows the last `/` of a path.
pub open spec fn last_segment(p: Seq<char>) -> Seq<char> {
    p.subrange(last_index_of(p, '/') + 1, p.len() as int)
}

/// A file name without its extension: what precedes the last `.`, unless
/// that dot opens the name.
pub open spec fn file_stem(n: Seq<char>) -> Seq<char> {
    let d = last_index_of(n, '.');
    if d <= 0 {
        n
    } else {
        n.subrange(0, d)
    }
}

/// The extension of a file name: what follows its last `.`, unless that
/// dot opens the name.
pub open spec fn file_extension(n: Seq<char>) -> Option<Seq<char>> {
    let d = last_index_of(n, '.');
    if d <= 0 {
        None
    } else {
        Some(n.subrange(d + 1, n.len() as int))
    }
}

/// Whether a file name is that of a scheme document: it ends in `.yaml`
/// or `.yml`.
pub open spec fn is_scheme_file_name(n: Seq<char>) -> bool {
    match file_extension(n) {
        Some(e) => e == "yaml"@ || e == "yml"@,
        None => false,
    }
}

/// Whether the file `name` holds a scheme.
pub fn is_scheme_file(name: &str) -> (r: bool)
    ensures
        r == is_scheme_file_name(name@),
{
    let n = chars_of(name);
    match rfind_char(&n, '.') {
        Some(d) if d > 0 => {
            let e = subrange_chars(&n, d + 1, n.len());
            chars_equal(&e, &chars_of("yaml")) || chars_equal(&e, &chars_of("yml"))
        },
        _ => false,
    }
}

/// The lower-case form of a string, as `str::to_lowercase` gives it.
pub uninterp spec fn lower_of(s: Seq<char>) -> Seq<char>;

/// Identifier of the palette read from `path`: its file name without the
/// extension, lower-cased, spaces replaced by underscores.
pub open spec fn scheme_identifier(path: Seq<char>) -> Seq<char> {
    replace_all(lower_of(file_stem(last_segment(path))), seq![' '], seq!['_'])
}

/// Relies on `str::to_lowercase`: the result depends on the characters alone.
#[verifier::external_body]
fn lowercase(s: &str) -> (r: String)
    ensures
        r@ == lower_of(s@),
{
    s.to_lowercase()
}

/// The file name of `path` without its extension.
pub fn stem_of(path: &str) -> (r: String)
    ensures
        r@ == file_stem(last_segment(path@)),
{
    let p = chars_of(path);
    let start = match rfind_char(&p, '/') {
        Some(i) => i + 1,
        None => 0,
    };
    let name = subrange_chars(&p, start, p.len());
    let stem = match rfind_char(&name, '.') {
        Some(d) if d > 0 => subrange_chars(&name, 0, d),
        _ => name,
    };
    string_of(&stem)
}

/// `s` with every space replaced by an underscore.
pub fn underscore_spaces(s: &str) -> (r: String)
    ensures
        r@ == replace_all(s@, seq![' '], seq!['_']),
{
    let mut space: Vec<char> = Vec::new();
    space.push(' ');
    let mut underscore: Vec<char> = Vec::new();
    underscore.push('_');
    assert(space@ =~= seq![' ']);
    assert(underscore@ =~= seq!['_']);
    string_of(&replace_chars(&chars_of(s), &space, &underscore))
}

/// The identifier of the palette read from `path`.
pub fn identifier_of(path: &str) -> (r: String)
    ensures
        r@ == scheme_identifier(path@),
{
    let stem = stem_of(path);
    underscore_spaces(lowercase(stem.as_str()).as_str())
}

/// The characters of the name of slot `i`.
pub fn slot_name_chars(i: usize) -> (r: Vec<char>)
    requires
        i < 16,
    ensures
        r@ == slot_name(i as int),
{
    let mut r: Vec<char> = Vec::new();
    r.push('b');
    r.push('a');
    r.push('s');
    r.push('e');
    r.push('0');
    let d: u8 = i as u8;
    if d < 10 {
        r.push((d + 48) as char);
    } else {
        r.push((d + 55) as char);
    }
    assert(r@ =~= slot_name(i as int));
    r
}

/// The slot whose name is `key`, if any.
pub fn slot_index(key: &Vec<char>) -> (r: Option<usize>)
    ensures
        match r {
            Some(i) => slot_of(key@) == Some(i as int),
            None => slot_of(key@) is None,
        },
{
    let mut i: usize = 0;
    while i < SLOT_COUNT
        invariant
            i <= 16,
            slot_of(key@) == slot_from(key@, i as int),
        decreases 16 - i,
    {
        if chars_equal(key, &slot_name_chars(i)) {
            return Some(i);
        }
        i = i + 1;
    }
    None
}

/// The palette with identifier `slug` that a parsed scheme document
/// describes.
pub fn scheme_from_document(slug: &str, doc: &Node) -> (r: Result<Scheme, SchemeError>)
    ensures
        match *doc {
            Node::Mapping(es) => match r {
                Ok(s) => scheme_of_entries(slug@, es@) == Ok::<SchemeView, Seq<char>>(s@),
                Err(SchemeError::NotText { key }) => scheme_of_entries(slug@, es@) == Err::<
                    SchemeView,
                    Seq<char>,
                >(key@),
                Err(_) => false,
            },
            _ => r matches Err(SchemeError::NotAMapping),
        },
{
    let es = match doc {
        Node::Mapping(es) => es,
        _ => {
            return Err(SchemeError::NotAMapping);
        },
    };
    let mut colors: Vec<Option<String>> = Vec::new();
    let mut k: usize = 0;
    while k < SLOT_COUNT
        invariant
            k <= 16,
            colors@.len() == k,
            forall|j: int| 0 <= j < k ==> colors@[j] is None,
        decreases 16 - k,
    {
        colors.push(None);
        k = k + 1;
    }
    let mut s = Scheme {
        name: String::new(),
        author: String::new(),
        slug: string_of(&chars_of(slug)),
        colors,
    };
    assert(s@.colors =~= empty_scheme(slug@).colors);
    assert(es@.subrange(0, 0) =~= Seq::<(Node, Node)>::empty());
    let mut i: usize = 0;
    while i < es.len()
        invariant
            i <= es.len(),
            *doc == Node::Mapping(*es),
            s.colors@.len() == 16,
            scheme_of_entries(slug@, es@.subrange(0, i as int)) == Ok::<SchemeView, Seq<char>>(s@),
        decreases es.len() - i,
    {
        let ghost prev = s@;
        assert(es@.subrange(0, i + 1).drop_last() =~= es@.subrange(0, i as int));
        let (k, v) = &es[i];
        if let Node::Text(ks) = k {
            let key = chars_of(ks.as_str());
            let is_name = chars_equal(&key, &chars_of("scheme"));
            let is_author = chars_equal(&key, &chars_of("author"));
            let slot = slot_index(&key);
            if is_name || is_author || slot.is_some() {
                match text_chars(v) {
                    None => {
                        proof {
                            lemma_error_persists(slug@, es@, i + 1, ks@);
                        }
                        let key_text = ks.clone();
                        return Err(SchemeError::NotText { key: key_text });
                    },
                    Some(val) => {
                        if is_name {
                            s.name = string_of(&val);
                        } else if is_author {
                            s.author = string_of(&val);
                        } else {
                            let j = slot.unwrap();
                            proof {
                                lemma_slot_of_range(key@);
                            }
                            s.colors.set(j, Some(string_of(&val)));
                            assert(s@.colors =~= prev.colors.update(j as int, Some(val@)));
                        }
                    },
                }
            }
        }
        i = i + 1;
    }
    assert(es@.subrange(0, es.len() as int) =~= es@);
    Ok(s)
}

/// Reads the palette at `path` from the file's text `text`: the first
/// document of the text, with the identifier that `path` gives.
pub fn create_scheme(path: &str, text: &str) -> (r: Result<Scheme, SchemeError>)
    ensures
        match yaml_documents(text@) {
            None => r matches Err(SchemeError::Parse(_)),
            Some(docs) => if docs.len() == 0 {
                r matches Err(SchemeError::NoDocument)
            } else {
                match docs[0] {
                    Node::Mapping(es) => match r {
                        Ok(s) => scheme_of_entries(scheme_identifier(path@), es@) == Ok::<
                            SchemeView,
                            Seq<char>,
                        >(s@),
                        Err(SchemeError::NotText { key }) => scheme_of_entries(
                            scheme_identifier(path@),
                            es@,
                        ) == Err::<SchemeView, Seq<char>>(key@),
                        Err(_) => false,
                    },
                    _ => r matches Err(SchemeError::NotAMapping),
                }
            },
        },
{
    let docs = match parse_yaml(text) {
        Ok(docs) => docs,
        Err(e) => {
            return Err(SchemeError::Parse(e));
        },
    };
    if docs.len() == 0 {
        return Err(SchemeError::NoDocument);
    }
    let slug = identifier_of(path);
    scheme_from_document(slug.as_str(), &docs[0])
}

} // verus!
