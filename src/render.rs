//! Rendering a template against a palette by placeholder substitution.

use vstd::prelude::*;

use crate::color::{expansion, expansion_chars, is_hex_color, is_hex_color_exec, MalformedColor};
use crate::scheme::{slot_name, slot_name_chars, Scheme, SchemeView, SLOT_COUNT};
use crate::text::{chars_of, concat_chars, contains, occurs_at, replace_all, replace_chars, string_of};

verus! {

/// The placeholder token for `name`: `{{name}}`.
pub open spec fn token(name: Seq<char>) -> Seq<char> {
    seq!['{', '{'] + name + seq!['}', '}']
}

/// Pairs of characters as pairs of sequences.
pub open spec fn pairs_view(v: Seq<(Vec<char>, Vec<char>)>) -> Seq<(Seq<char>, Seq<char>)> {
    v.map_values(|p: (Vec<char>, Vec<char>)| (p.0@, p.1@))
}

/// The tokens and values that name, author and identifier give.
pub open spec fn global_substitutions(s: SchemeView) -> Seq<(Seq<char>, Seq<char>)> {
    seq![
        (token("scheme-name"@), s.name),
        (token("scheme-author"@), s.author),
        (token("scheme-slug"@), "base16-"@ + s.slug),
    ]
}

/// Number of slots of `s` that rendering reads.
pub open spec fn slot_count(s: SchemeView) -> int {
    if s.colors.len() < 16 {
        s.colors.len() as int
    } else {
        16
    }
}

/// The tokens and values of one color expansion.
pub open spec fn tokens_of(e: Seq<(Seq<char>, Seq<char>)>) -> Seq<(Seq<char>, Seq<char>)> {
    e.map_values(|p: (Seq<char>, Seq<char>)| (token(p.0), p.1))
}

/// The tokens and values of slots `0..n` that are set, slot by slot.
pub open spec fn slot_substitutions(s: SchemeView, n: int) -> Seq<(Seq<char>, Seq<char>)>
    decreases n,
{
    if n <= 0 {
        Seq::empty()
    } else {
        slot_substitutions(s, n - 1) + match s.colors[n - 1] {
            Some(c) => tokens_of(expansion(slot_name(n - 1), c)),
            None => Seq::empty(),
        }
    }
}

/// Every substitution that rendering `s` makes, in order.
pub open spec fn substitutions(s: SchemeView) -> Seq<(Seq<char>, Seq<char>)> {
    global_substitutions(s) + slot_substitutions(s, slot_count(s))
}

/// `t` after each substitution in turn.
pub open spec fn apply_all(t: Seq<char>, subs: Seq<(Seq<char>, Seq<char>)>) -> Seq<char>
    decreases subs.len(),
{
    if subs.len() == 0 {
        t
    } else {
        replace_all(apply_all(t, subs.drop_last()), subs.last().0, subs.last().1)
    }
}

/// Slot `i` is read by rendering and holds a value that is not a color.
pub open spec fn malformed_slot(s: SchemeView, i: int) -> bool {
    0 <= i < slot_count(s) && match s.colors[i] {
        Some(c) => !is_hex_color(c),
        None => false,
    }
}

/// The text that rendering `t` against a palette with no malformed slot gives.
pub open spec fn rendered(t: Seq<char>, s: SchemeView) -> Seq<char> {
    apply_all(t, substitutions(s))
}

fn token_chars(name: &Vec<char>) -> (r: Vec<char>)
    ensures
        r@ == token(name@),
{
    let mut r: Vec<char> = Vec::new();
    r.push('{');
    r.push('{');
    r.extend_from_slice(name.as_slice());
    r.push('}');
    r.push('}');
    assert(r@ =~= token(name@));
    r
}

fn substitution_list(scheme: &Scheme) -> (r: Vec<(Vec<char>, Vec<char>)>)
    requires
        forall|i: int| !malformed_slot(scheme@, i),
    ensures
        pairs_view(r@) == substitutions(scheme@),
{
    let ghost s = scheme@;
    let mut r: Vec<(Vec<char>, Vec<char>)> = Vec::new();
    r.push((token_chars(&chars_of("scheme-name")), chars_of(scheme.name.as_str())));
    r.push((token_chars(&chars_of("scheme-author")), chars_of(scheme.author.as_str())));
    r.push(
        (
            token_chars(&chars_of("scheme-slug")),
            concat_chars(&chars_of("base16-"), &chars_of(scheme.slug.as_str())),
        ),
    );
    assert(pairs_view(r@) =~= global_substitutions(s) + slot_substitutions(s, 0));
    let count = if scheme.colors.len() < SLOT_COUNT {
        scheme.colors.len()
    } else {
        SLOT_COUNT
    };
    let mut i: usize = 0;
    while i < count
        invariant
            i <= count,
            count as int == slot_count(s),
            s == scheme@,
            forall|j: int| !malformed_slot(s, j),
            pairs_view(r@) == global_substitutions(s) + slot_substitutions(s, i as int),
        decreases count - i,
    {
        let ghost before = r@;
        match &scheme.colors[i] {
            Some(c) => {
                let cc = chars_of(c.as_str());
                assert(!malformed_slot(s, i as int));
                let e = expansion_chars(&slot_name_chars(i), &cc);
                let ghost ex = tokens_of(expansion(slot_name(i as int), cc@));
                let mut k: usize = 0;
                while k < e.len()
                    invariant
                        k <= e.len(),
                        e@.len() == 8,
                        ex == tokens_of(expansion(slot_name(i as int), cc@)),
                        ex.len() == 8,
                        forall|m: int|
                            0 <= m < 8 ==> (#[trigger] e@[m]).0@ == expansion(
                                slot_name(i as int),
                                cc@,
                            )[m].0 && e@[m].1@ == expansion(slot_name(i as int), cc@)[m].1,
                        pairs_view(r@) == pairs_view(before) + ex.subrange(0, k as int),
                    decreases e.len() - k,
                {
                    let value = e[k].1.clone();
                    assert(value@ =~= e@[k as int].1@);
                    let tok = token_chars(&e[k].0);
                    let ghost r_old = r@;
                    r.push((tok, value));
                    assert(pairs_view(r@) =~= pairs_view(r_old).push((tok@, value@)));
                    assert(ex[k as int] == (tok@, value@));
                    assert(ex.subrange(0, k + 1) =~= ex.subrange(0, k as int).push(ex[k as int]));
                    k = k + 1;
                }
                assert(ex.subrange(0, 8) =~= ex);
            },
            None => {
                assert(pairs_view(r@) =~= pairs_view(before) + Seq::empty());
            },
        }
        assert(global_substitutions(s) + slot_substitutions(s, i + 1) =~= global_substitutions(s)
            + slot_substitutions(s, i as int) + match s.colors[i as int] {
            Some(c) => tokens_of(expansion(slot_name(i as int), c)),
            None => Seq::empty(),
        });
        i = i + 1;
    }
    r
}

/// Renders `template` against `scheme`: every `{{scheme-name}}`,
/// `{{scheme-author}}` and `{{scheme-slug}}`, and every placeholder of each
/// set slot, is replaced; other text, unknown tokens included, is kept.
/// Fails on the first set slot whose value is not six hex digits.
pub fn render_template(template: &str, scheme: &Scheme) -> (r: Result<String, MalformedColor>)
    ensures
        match r {
            Ok(out) => (forall|i: int| !malformed_slot(scheme@, i)) && out@ == rendered(
                template@,
                scheme@,
            ),
            Err(e) => exists|i: int|
                #![trigger malformed_slot(scheme@, i)]
                malformed_slot(scheme@, i) && (forall|j: int| 0 <= j < i ==> !malformed_slot(scheme@, j))
                    && e.slot@ == slot_name(i) && scheme@.colors[i] == Some(e.value@),
        },
{
    let count = if scheme.colors.len() < SLOT_COUNT {
        scheme.colors.len()
    } else {
        SLOT_COUNT
    };
    let mut i: usize = 0;
    while i < count
        invariant
            i <= count,
            count as int == slot_count(scheme@),
            forall|j: int| 0 <= j < i ==> !malformed_slot(scheme@, j),
        decreases count - i,
    {
        if let Some(c) = &scheme.colors[i] {
            if !is_hex_color_exec(&chars_of(c.as_str())) {
                assert(malformed_slot(scheme@, i as int));
                return Err(MalformedColor { slot: string_of(&slot_name_chars(i)), value: c.clone() });
            }
        }
        i = i + 1;
    }
    assert forall|j: int| !malformed_slot(scheme@, j) by {
        if 0 <= j < i {
        }
    }
    let subs = substitution_list(scheme);
    let mut text = chars_of(template);
    let mut k: usize = 0;
    assert(pairs_view(subs@).subrange(0, 0) =~= Seq::<(Seq<char>, Seq<char>)>::empty());
    while k < subs.len()
        invariant
            k <= subs.len(),
            text@ == apply_all(template@, pairs_view(subs@).subrange(0, k as int)),
        decreases subs.len() - k,
    {
        text = replace_chars(&text, &subs[k].0, &subs[k].1);
        assert(pairs_view(subs@).subrange(0, k + 1).drop_last() =~= pairs_view(subs@).subrange(
            0,
            k as int,
        ));
        k = k + 1;
    }
    assert(pairs_view(subs@).subrange(0, subs.len() as int) =~= pairs_view(subs@));
    Ok(string_of(&text))
}

/// Replacing a pattern that does not occur changes nothing.
pub proof fn lemma_replace_absent(s: Seq<char>, p: Seq<char>, r: Seq<char>)
    requires
        !contains(s, p),
    ensures
        replace_all(s, p, r) == s,
    decreases s.len(),
{
    if p.len() == 0 || s.len() < p.len() {
    } else {
        assert(!occurs_at(s, p, 0));
        let tail = s.subrange(1, s.len() as int);
        assert forall|i: int| !occurs_at(tail, p, i) by {
            if occurs_at(tail, p, i) {
                assert(s.subrange(i + 1, i + 1 + p.len()) =~= tail.subrange(i, i + p.len()));
                assert(occurs_at(s, p, i + 1));
            }
        }
        lemma_replace_absent(tail, p, r);
        assert(seq![s[0]] + tail =~= s);
    }
}

proof fn lemma_apply_absent(t: Seq<char>, subs: Seq<(Seq<char>, Seq<char>)>)
    requires
        forall|k: int| 0 <= k < subs.len() ==> !contains(t, #[trigger] subs[k].0),
    ensures
        apply_all(t, subs) == t,
    decreases subs.len(),
{
    if subs.len() > 0 {
        lemma_apply_absent(t, subs.drop_last());
        lemma_replace_absent(t, subs.last().0, subs.last().1);
    }
}

/// A template in which none of the palette's tokens occurs renders
/// unchanged: unknown tokens such as `{{unknown-token}}` are kept verbatim.
pub proof fn lemma_render_keeps_unknown(t: Seq<char>, s: SchemeView)
    requires
        forall|k: int|
            0 <= k < substitutions(s).len() ==> !contains(t, #[trigger] substitutions(s)[k].0),
    ensures
        rendered(t, s) == t,
{
    lemma_apply_absent(t, substitutions(s));
}

} // verus!
