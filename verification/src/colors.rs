//! The escape sequences that style what the shell prints.

use vstd::prelude::*;
use vstd::string::*;

verus! {

/// Bold text.
pub const ANSI_BOLD: &'static str = "\x1b[1m";

/// Cyan text.
pub const ANSI_COLOR_CYAN: &'static str = "\x1b[36m";

/// Green text.
pub const GREEN: &'static str = "\x1b[32m";

/// Red text.
pub const RED: &'static str = "\x1b[31m";

/// Back to the terminal's own style.
pub const RESET: &'static str = "\x1b[0m";

/// How a notice is shown.
#[derive(Debug, Clone, Copy, PartialEq, Eq)]
pub enum Style {
    /// Good news, in green.
    Success,
    /// A failure, in red.
    Error,
}

/// The escape sequence of the colour that goes with `style`.
pub open spec fn color_of(style: Style) -> Seq<char> {
    match style {
        Style::Success => GREEN@,
        Style::Error => RED@,
    }
}

/// `text` in bold and in the colour of `style`, with the style reset behind it.
pub open spec fn styled_text(style: Style, text: Seq<char>) -> Seq<char> {
    ANSI_BOLD@ + color_of(style) + text + RESET@
}

/// Wraps `text` in the escape sequences for `style`.
pub fn styled(style: Style, text: &str) -> (out: String)
    ensures
        out@ == styled_text(style, text@),
{
    let color = match style {
        Style::Success => GREEN,
        Style::Error => RED,
    };
    let mut out = String::from_str(ANSI_BOLD);
    out.append(color);
    out.append(text);
    out.append(RESET);
    out
}

} // verus!
