//! Small helpers of the command line: home-directory expansion and the
//! terminal colors of messages.

use vstd::prelude::*;

use crate::text::{chars_equal, chars_of, concat_chars, replace_all, replace_chars, string_of};

verus! {

/// `path` with every `~` replaced by the home directory `home_dir`.
pub fn home(path: &str, home_dir: &str) -> (r: String)
    ensures
        r@ == replace_all(path@, seq!['~'], home_dir@),
{
    let mut tilde: Vec<char> = Vec::new();
    tilde.push('~');
    assert(tilde@ =~= seq!['~']);
    string_of(&replace_chars(&chars_of(path), &tilde, &chars_of(home_dir)))
}

/// The terminal escape that starts text in `color`: red, green and yellow
/// are known, any other color gives none.
pub open spec fn color_code_of(color: Seq<char>) -> Seq<char> {
    if color == "red"@ {
        "\x1b[0;31m"@
    } else if color == "green"@ {
        "\x1b[0;32m"@
    } else if color == "yellow"@ {
        "\x1b[0;33m"@
    } else {
        Seq::empty()
    }
}

/// The terminal escape that starts text in `color`.
pub fn color_code(color: &str) -> (r: &'static str)
    ensures
        r@ == color_code_of(color@),
{
    let c = chars_of(color);
    if chars_equal(&c, &chars_of("red")) {
        "\x1b[0;31m"
    } else if chars_equal(&c, &chars_of("green")) {
        "\x1b[0;32m"
    } else if chars_equal(&c, &chars_of("yellow")) {
        "\x1b[0;33m"
    } else {
        proof {
            reveal_strlit("");
        }
        ""
    }
}

/// `text` in `color`, followed by the escape that resets the color.
pub fn colored(color: &str, text: &str) -> (r: String)
    ensures
        r@ == color_code_of(color@) + text@ + "\x1b[0m"@,
{
    let s = concat_chars(&chars_of(color_code(color)), &chars_of(text));
    string_of(&concat_chars(&s, &chars_of("\x1b[0m")))
}

} // verus!
