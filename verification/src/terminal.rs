//! Styling of terminal text.

use vstd::prelude::*;
use crate::text::string_of;

verus! {

/// `text` in the style `code`, or `text` itself where colour is off.
pub open spec fn styled(code: Seq<char>, text: Seq<char>, plain: bool) -> Seq<char> {
    if plain {
        text
    } else {
        "\u{1b}["@ + code + "m"@ + text + "\u{1b}[0m"@
    }
}

/// Wraps `text` in the ANSI style `code`; `plain` turns colour off.
pub fn color(code: &str, text: &str, plain: bool) -> (r: String)
    ensures
        r@ == styled(code@, text@, plain),
{
    if plain {
        string_of(text)
    } else {
        let mut r = string_of("\u{1b}[");
        r.append(code);
        r.append("m");
        r.append(text);
        r.append("\u{1b}[0m");
        r
    }
}

} // verus!
