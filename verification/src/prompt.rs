//! The prompt: where the shell stands, and how the last command ended.

use vstd::prelude::*;
use vstd::string::*;
use crate::colors::{ANSI_BOLD, ANSI_COLOR_CYAN, GREEN, RED, RESET};

verus! {

/// The arrow in front of the user's input.
pub const ARROW: &'static str = "\u{2ba1}";

/// The prompt in the directory `path`: a line that names the directory, then
/// an arrow that is green after a success and red after a failure.
pub open spec fn prompt_text(path: Seq<char>, last_exit_status: bool) -> Seq<char> {
    let color = if last_exit_status {
        GREEN@
    } else {
        RED@
    };
    ANSI_BOLD@ + "RUSHING IN "@ + ANSI_COLOR_CYAN@ + path + RESET@ + "\n"@ + ANSI_BOLD@ + color
        + ARROW@ + RESET@ + " "@
}

/// Makes the prompt for the working directory `path`.
pub fn generate_prompt(path: &str, last_exit_status: bool) -> (prompt: String)
    ensures
        prompt@ == prompt_text(path@, last_exit_status),
{
    let mut prompt = String::from_str(ANSI_BOLD);
    prompt.append("RUSHING IN ");
    prompt.append(ANSI_COLOR_CYAN);
    prompt.append(path);
    prompt.append(RESET);
    prompt.append("\n");
    prompt.append(ANSI_BOLD);
    if last_exit_status {
        prompt.append(GREEN);
    } else {
        prompt.append(RED);
    }
    prompt.append(ARROW);
    prompt.append(RESET);
    prompt.append(" ");
    prompt
}

} // verus!
