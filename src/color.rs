//! Expansion of one six-digit hex color into its placeholder values.

use vstd::prelude::*;

use crate::text::{chars_of, concat_chars, string_of};

verus! {

pub open spec fn is_hex_digit(c: char) -> bool {
    ('0' <= c && c <= '9') || ('a' <= c && c <= 'f') || ('A' <= c && c <= 'F')
}

pub open spec fn hex_digit_value(c: char) -> int {
    if '0' <= c && c <= '9' {
        c as int - '0' as int
    } else if 'a' <= c && c <= 'f' {
        c as int - 'a' as int + 10
    } else {
        c as int - 'A' as int + 10
    }
}

/// Exactly six hex digits, either case.
pub open spec fn is_hex_color(s: Seq<char>) -> bool {
    s.len() == 6 && forall|i: int| 0 <= i < 6 ==> is_hex_digit(#[trigger] s[i])
}

/// The two digits of channel `k` (0 red, 1 green, 2 blue), case kept.
pub open spec fn channel(c: Seq<char>, k: int) -> Seq<char> {
    c.subrange(2 * k, 2 * k + 2)
}

/// The value of a two-digit hex channel.
pub open spec fn channel_value(pair: Seq<char>) -> int {
    16 * hex_digit_value(pair[0]) + hex_digit_value(pair[1])
}

/// The decimal text of `v / 255` for a channel value `v` in `0..=255`,
/// which is `1` for 255 and `0` below it.
pub open spec fn decimal_text(v: int) -> Seq<char> {
    if v / 255 == 0 {
        seq!['0']
    } else {
        seq!['1']
    }
}

/// The placeholder names and values that color `c` of slot `slot` gives,
/// in the order the renderer substitutes them.
pub open spec fn expansion(slot: Seq<char>, c: Seq<char>) -> Seq<(Seq<char>, Seq<char>)> {
    let r = channel(c, 0);
    let g = channel(c, 1);
    let b = channel(c, 2);
    seq![
        (slot + "-hex"@, c),
        (slot + "-hex-r"@, r),
        (slot + "-hex-g"@, g),
        (slot + "-hex-b"@, b),
        (slot + "-dec-r"@, decimal_text(channel_value(r))),
        (slot + "-dec-g"@, decimal_text(channel_value(g))),
        (slot + "-dec-b"@, decimal_text(channel_value(b))),
        (slot + "-hex-bgr"@, b + g + r),
    ]
}

/// The value that `entries` gives `name`: that of its first entry with
/// that name.
pub open spec fn value_of(entries: Seq<(Seq<char>, Seq<char>)>, name: Seq<char>) -> Option<Seq<char>>
    decreases entries.len(),
{
    if entries.len() == 0 {
        None
    } else if entries[0].0 == name {
        Some(entries[0].1)
    } else {
        value_of(entries.drop_first(), name)
    }
}

proof fn lemma_value_of_skip(e: Seq<(Seq<char>, Seq<char>)>, name: Seq<char>, k: int)
    requires
        0 <= k <= e.len(),
        forall|j: int| 0 <= j < k ==> (#[trigger] e[j]).0 != name,
    ensures
        value_of(e, name) == value_of(e.subrange(k, e.len() as int), name),
    decreases k,
{
    if k == 0 {
        assert(e.subrange(0, e.len() as int) =~= e);
    } else {
        lemma_value_of_skip(e, name, k - 1);
        let rest = e.subrange(k - 1, e.len() as int);
        assert(rest[0] == e[k - 1]);
        assert(rest.drop_first() =~= e.subrange(k, e.len() as int));
    }
}

proof fn lemma_suffix_differs(slot: Seq<char>, a: Seq<char>, b: Seq<char>)
    requires
        a != b,
    ensures
        slot + a != slot + b,
{
    if slot + a == slot + b {
        assert((slot + a).subrange(slot.len() as int, (slot + a).len() as int) =~= a);
        assert((slot + b).subrange(slot.len() as int, (slot + b).len() as int) =~= b);
    }
}

proof fn lemma_suffixes_distinct()
    ensures
        "-dec-r"@ != "-hex"@,
        "-dec-r"@ != "-hex-r"@,
        "-dec-r"@ != "-hex-g"@,
        "-dec-r"@ != "-hex-b"@,
        "-dec-g"@ != "-hex"@,
        "-dec-g"@ != "-hex-r"@,
        "-dec-g"@ != "-hex-g"@,
        "-dec-g"@ != "-hex-b"@,
        "-dec-g"@ != "-dec-r"@,
        "-dec-b"@ != "-hex"@,
        "-dec-b"@ != "-hex-r"@,
        "-dec-b"@ != "-hex-g"@,
        "-dec-b"@ != "-hex-b"@,
        "-dec-b"@ != "-dec-r"@,
        "-dec-b"@ != "-dec-g"@,
        "-hex-bgr"@.len() == 8,
        "-hex"@.len() == 4,
        "-hex-r"@.len() == 6,
        "-hex-g"@.len() == 6,
        "-hex-b"@.len() == 6,
        "-dec-r"@.len() == 6,
        "-dec-g"@.len() == 6,
        "-dec-b"@.len() == 6,
{
    reveal_strlit("-hex");
    reveal_strlit("-hex-r");
    reveal_strlit("-hex-g");
    reveal_strlit("-hex-b");
    reveal_strlit("-dec-r");
    reveal_strlit("-dec-g");
    reveal_strlit("-dec-b");
    reveal_strlit("-hex-bgr");
    assert("-dec-r"@[1] != "-hex-r"@[1]);
    assert("-dec-r"@[1] != "-hex-g"@[1]);
    assert("-dec-r"@[1] != "-hex-b"@[1]);
    assert("-dec-g"@[1] != "-hex-r"@[1]);
    assert("-dec-g"@[1] != "-hex-g"@[1]);
    assert("-dec-g"@[1] != "-hex-b"@[1]);
    assert("-dec-g"@[5] != "-dec-r"@[5]);
    assert("-dec-b"@[1] != "-hex-r"@[1]);
    assert("-dec-b"@[1] != "-hex-g"@[1]);
    assert("-dec-b"@[1] != "-hex-b"@[1]);
    assert("-dec-b"@[5] != "-dec-r"@[5]);
    assert("-dec-b"@[5] != "-dec-g"@[5]);
}

/// The `-hex` placeholder of a well-formed color is the color itself.
pub proof fn lemma_hex_round_trip(slot: Seq<char>, c: Seq<char>)
    requires
        is_hex_color(c),
    ensures
        value_of(expansion(slot, c), slot + "-hex"@) == Some(c),
{
}

/// Each decimal channel placeholder is `0` or `1`: the channel divided by
/// 255, so `1` exactly where the channel is `ff`.
pub proof fn lemma_decimal_channels(slot: Seq<char>, c: Seq<char>)
    requires
        is_hex_color(c),
    ensures
        value_of(expansion(slot, c), slot + "-dec-r"@) == Some(decimal_text(channel_value(channel(c, 0)))),
        value_of(expansion(slot, c), slot + "-dec-g"@) == Some(decimal_text(channel_value(channel(c, 1)))),
        value_of(expansion(slot, c), slot + "-dec-b"@) == Some(decimal_text(channel_value(channel(c, 2)))),
        forall|k: int|
            0 <= k < 3 ==> {
                let d = decimal_text(channel_value(#[trigger] channel(c, k)));
                &&& (d == seq!['0'] || d == seq!['1'])
                &&& (d == seq!['1'] <==> channel_value(channel(c, k)) == 255)
            },
{
    lemma_suffixes_distinct();
    lemma_suffix_differs(slot, "-dec-r"@, "-hex"@);
    lemma_suffix_differs(slot, "-dec-r"@, "-hex-r"@);
    lemma_suffix_differs(slot, "-dec-r"@, "-hex-g"@);
    lemma_suffix_differs(slot, "-dec-r"@, "-hex-b"@);
    lemma_suffix_differs(slot, "-dec-g"@, "-hex"@);
    lemma_suffix_differs(slot, "-dec-g"@, "-hex-r"@);
    lemma_suffix_differs(slot, "-dec-g"@, "-hex-g"@);
    lemma_suffix_differs(slot, "-dec-g"@, "-hex-b"@);
    lemma_suffix_differs(slot, "-dec-g"@, "-dec-r"@);
    lemma_suffix_differs(slot, "-dec-b"@, "-hex"@);
    lemma_suffix_differs(slot, "-dec-b"@, "-hex-r"@);
    lemma_suffix_differs(slot, "-dec-b"@, "-hex-g"@);
    lemma_suffix_differs(slot, "-dec-b"@, "-hex-b"@);
    lemma_suffix_differs(slot, "-dec-b"@, "-dec-r"@);
    lemma_suffix_differs(slot, "-dec-b"@, "-dec-g"@);
    let e = expansion(slot, c);
    lemma_value_of_skip(e, slot + "-dec-r"@, 4);
    assert(e.subrange(4, 8)[0] == e[4]);
    lemma_value_of_skip(e, slot + "-dec-g"@, 5);
    assert(e.subrange(5, 8)[0] == e[5]);
    lemma_value_of_skip(e, slot + "-dec-b"@, 6);
    assert(e.subrange(6, 8)[0] == e[6]);
    assert forall|k: int| 0 <= k < 3 implies {
        let d = decimal_text(channel_value(#[trigger] channel(c, k)));
        &&& (d == seq!['0'] || d == seq!['1'])
        &&& (d == seq!['1'] <==> channel_value(channel(c, k)) == 255)
    } by {
        assert(is_hex_digit(c[2 * k]));
        assert(is_hex_digit(c[2 * k + 1]));
        assert(channel(c, k)[0] == c[2 * k]);
        assert(channel(c, k)[1] == c[2 * k + 1]);
        assert(seq!['0'][0] != seq!['1'][0]);
    }
}

/// The `-hex-bgr` placeholder holds the channels in the order blue, green,
/// red.
pub proof fn lemma_bgr_order(slot: Seq<char>, c: Seq<char>)
    requires
        is_hex_color(c),
    ensures
        value_of(expansion(slot, c), slot + "-hex-bgr"@) == Some(
            channel(c, 2) + channel(c, 1) + channel(c, 0),
        ),
{
    lemma_suffixes_distinct();
    let e = expansion(slot, c);
    assert forall|j: int| 0 <= j < 7 implies (#[trigger] e[j]).0 != slot + "-hex-bgr"@ by {
        assert(e[j].0.len() < (slot + "-hex-bgr"@).len());
    }
    lemma_value_of_skip(e, slot + "-hex-bgr"@, 7);
    assert(e.subrange(7, 8)[0] == e[7]);
}

/// A color value that is not six hex digits.
#[derive(Debug)]
pub struct MalformedColor {
    pub slot: String,
    pub value: String,
}

fn is_hex_digit_exec(c: char) -> (r: bool)
    ensures
        r == is_hex_digit(c),
{
    ('0' <= c && c <= '9') || ('a' <= c && c <= 'f') || ('A' <= c && c <= 'F')
}

fn hex_digit_value_exec(c: char) -> (r: u32)
    requires
        is_hex_digit(c),
    ensures
        r as int == hex_digit_value(c),
        r < 16,
{
    if '0' <= c && c <= '9' {
        (c as u32) - ('0' as u32)
    } else if 'a' <= c && c <= 'f' {
        (c as u32) - ('a' as u32) + 10
    } else {
        (c as u32) - ('A' as u32) + 10
    }
}

/// Whether `c` is six hex digits.
pub fn is_hex_color_exec(c: &Vec<char>) -> (r: bool)
    ensures
        r == is_hex_color(c@),
{
    if c.len() != 6 {
        return false;
    }
    let mut i: usize = 0;
    while i < 6
        invariant
            i <= 6,
            c.len() == 6,
            forall|k: int| 0 <= k < i ==> is_hex_digit(#[trigger] c@[k]),
        decreases 6 - i,
    {
        if !is_hex_digit_exec(c[i]) {
            return false;
        }
        i = i + 1;
    }
    true
}

fn channel_exec(c: &Vec<char>, k: usize) -> (r: Vec<char>)
    requires
        c.len() == 6,
        k < 3,
    ensures
        r@ == channel(c@, k as int),
{
    let mut r: Vec<char> = Vec::new();
    r.push(c[2 * k]);
    r.push(c[2 * k + 1]);
    assert(r@ =~= channel(c@, k as int));
    r
}

fn decimal_text_exec(pair: &Vec<char>) -> (r: Vec<char>)
    requires
        pair.len() == 2,
        is_hex_digit(pair@[0]),
        is_hex_digit(pair@[1]),
    ensures
        r@ == decimal_text(channel_value(pair@)),
{
    let v = 16 * hex_digit_value_exec(pair[0]) + hex_digit_value_exec(pair[1]);
    let mut r: Vec<char> = Vec::new();
    if v / 255 == 0 {
        r.push('0');
    } else {
        r.push('1');
    }
    assert(r@ =~= decimal_text(channel_value(pair@)));
    r
}

/// The placeholder names and values of a well-formed color, as characters.
pub fn expansion_chars(slot: &Vec<char>, c: &Vec<char>) -> (r: Vec<(Vec<char>, Vec<char>)>)
    requires
        is_hex_color(c@),
    ensures
        r@.len() == 8,
        forall|i: int|
            0 <= i < 8 ==> (#[trigger] r@[i]).0@ == expansion(slot@, c@)[i].0 && r@[i].1@
                == expansion(slot@, c@)[i].1,
{
    let red = channel_exec(c, 0);
    let green = channel_exec(c, 1);
    let blue = channel_exec(c, 2);
    let bgr = concat_chars(&concat_chars(&blue, &green), &red);
    let mut r: Vec<(Vec<char>, Vec<char>)> = Vec::new();
    r.push((concat_chars(slot, &chars_of("-hex")), c.clone()));
    r.push((concat_chars(slot, &chars_of("-hex-r")), red.clone()));
    r.push((concat_chars(slot, &chars_of("-hex-g")), green.clone()));
    r.push((concat_chars(slot, &chars_of("-hex-b")), blue.clone()));
    r.push((concat_chars(slot, &chars_of("-dec-r")), decimal_text_exec(&red)));
    r.push((concat_chars(slot, &chars_of("-dec-g")), decimal_text_exec(&green)));
    r.push((concat_chars(slot, &chars_of("-dec-b")), decimal_text_exec(&blue)));
    r.push((concat_chars(slot, &chars_of("-hex-bgr")), bgr));
    r
}

/// Expands color `hex` of slot `slot` into its placeholder names and
/// values, or reports it malformed when it is not six hex digits.
pub fn expand(slot: &str, hex: &str) -> (r: Result<Vec<(String, String)>, MalformedColor>)
    ensures
        match r {
            Ok(v) => is_hex_color(hex@) && v@.len() == 8 && forall|i: int|
                0 <= i < 8 ==> (#[trigger] v@[i]).0@ == expansion(slot@, hex@)[i].0
                    && v@[i].1@ == expansion(slot@, hex@)[i].1,
            Err(e) => !is_hex_color(hex@) && e.slot@ == slot@ && e.value@ == hex@,
        },
{
    let s = chars_of(slot);
    let c = chars_of(hex);
    if !is_hex_color_exec(&c) {
        return Err(MalformedColor { slot: string_of(&s), value: string_of(&c) });
    }
    let pairs = expansion_chars(&s, &c);
    let mut out: Vec<(String, String)> = Vec::new();
    let mut i: usize = 0;
    while i < pairs.len()
        invariant
            i <= pairs.len(),
            pairs@.len() == 8,
            out@.len() == i,
            forall|k: int|
                0 <= k < i ==> (#[trigger] out@[k]).0@ == pairs@[k].0@ && out@[k].1@
                    == pairs@[k].1@,
        decreases pairs.len() - i,
    {
        out.push((string_of(&pairs[i].0), string_of(&pairs[i].1)));
        i = i + 1;
    }
    Ok(out)
}

} // verus!
