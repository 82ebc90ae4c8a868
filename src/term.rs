//! Colouring of terminal messages. Whether colour is wanted (a terminal on
//! stderr, no `NO_COLOR`) is decided by the caller and passed in.

use vstd::prelude::*;
use crate::text::{ascii_lower, ascii_lowercase};

verus! {

/// `text` lower-cased, wrapped in the ANSI sequence `code` when `enabled`.
pub open spec fn colored(code: Seq<char>, text: Seq<char>, enabled: bool) -> Seq<char> {
    if enabled {
        "\x1b["@ + code + "m"@ + ascii_lower(text) + "\x1b[0m"@
    } else {
        ascii_lower(text)
    }
}

/// `text` lower-cased, in the colour `code` when `enabled`.
pub fn color(code: &str, text: &str, enabled: bool) -> (r: String)
    ensures
        r@ == colored(code@, text@, enabled),
{
    let lowered = ascii_lowercase(text);
    if enabled {
        let mut out = String::from_str("\x1b[");
        out.append(code);
        out.append("m");
        out.append(lowered.as_str());
        out.append("\x1b[0m");
        out
    } else {
        lowered
    }
}

/// The colour of the message prefix: bold green.
pub fn c_prefix(text: &str, enabled: bool) -> (r: String)
    ensures
        r@ == colored("1;32"@, text@, enabled),
{
    color("1;32", text, enabled)
}

/// The colour of highlighted words: bold cyan.
pub fn c_accent(text: &str, enabled: bool) -> (r: String)
    ensures
        r@ == colored("1;36"@, text@, enabled),
{
    color("1;36", text, enabled)
}

/// The colour of sensitive or failing text: bold red.
pub fn c_error(text: &str, enabled: bool) -> (r: String)
    ensures
        r@ == colored("1;31"@, text@, enabled),
{
    color("1;31", text, enabled)
}

} // verus!
