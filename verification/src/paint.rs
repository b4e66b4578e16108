//! Colours of the terminal.

use vstd::prelude::*;

verus! {

/// Ends a colour.
pub const RESET: &'static str = "\x1b[0m";

/// Starts bold text.
pub const BOLD: &'static str = "\x1b[1m";

/// Starts dimmed text.
pub const DIM: &'static str = "\x1b[2m";

/// Starts red text.
pub const RED: &'static str = "\x1b[31m";

/// Starts green text.
pub const GREEN: &'static str = "\x1b[32m";

/// Starts yellow text.
pub const YELLOW: &'static str = "\x1b[33m";

/// Starts cyan text.
pub const CYAN: &'static str = "\x1b[36m";

/// Green text.
pub open spec fn in_green(text: Seq<char>) -> Seq<char> {
    GREEN@ + text + RESET@
}

/// Yellow text.
pub open spec fn in_yellow(text: Seq<char>) -> Seq<char> {
    YELLOW@ + text + RESET@
}

/// Cyan text.
pub open spec fn in_cyan(text: Seq<char>) -> Seq<char> {
    CYAN@ + text + RESET@
}

/// Dimmed text.
pub open spec fn in_dim(text: Seq<char>) -> Seq<char> {
    DIM@ + text + RESET@
}

/// Green text.
pub fn green(text: &str) -> (s: String)
    ensures
        s@ == in_green(text@),
{
    GREEN.to_owned().concat(text).concat(RESET)
}

/// Yellow text.
pub fn yellow(text: &str) -> (s: String)
    ensures
        s@ == in_yellow(text@),
{
    YELLOW.to_owned().concat(text).concat(RESET)
}

/// Cyan text.
pub fn cyan(text: &str) -> (s: String)
    ensures
        s@ == in_cyan(text@),
{
    CYAN.to_owned().concat(text).concat(RESET)
}

/// Dimmed text.
pub fn dim(text: &str) -> (s: String)
    ensures
        s@ == in_dim(text@),
{
    DIM.to_owned().concat(text).concat(RESET)
}

} // verus!
