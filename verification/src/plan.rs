//! What a run decides from its arguments: how a source is named and counted, and
//! whether the total is shown.

use vstd::prelude::*;
use vstd::string::{StrSliceExecFns, StringExecFns};
use crate::record::FileInfo;
use crate::render::{display, rendered, Selection};

verus! {

/// When the line with the total is shown.
#[derive(Debug, Clone, Copy, PartialEq, Eq, Structural)]
pub enum TotalWhen {
    Always,
    Never,
}

impl Default for TotalWhen {
    fn default() -> (policy: TotalWhen)
        ensures
            policy == TotalWhen::Always,
    {
        TotalWhen::Always
    }
}

impl TotalWhen {
    /// Whether the line with the total is shown: always under `Always`, however many
    /// sources were counted, and never under `Never`.
    pub fn shows_total(&self) -> (shown: bool)
        ensures
            shown == (*self == TotalWhen::Always),
    {
        match self {
            TotalWhen::Always => true,
            TotalWhen::Never => false,
        }
    }
}

/// Whether the token stands for standard input: it is `-` and nothing else.
pub fn is_stdin(token: &str) -> (stdin: bool)
    ensures
        stdin == (token@ == "-"@),
{
    proof {
        reveal_strlit("-");
    }
    if token.unicode_len() == 1 {
        let first = token.get_char(0);
        assert(first == '-' ==> token@ =~= "-"@);
        first == '-'
    } else {
        false
    }
}

/// Whether the input is counted as one buffer: standard input is the only source.
pub fn lone_stdin(files: &Vec<String>) -> (lone: bool)
    ensures
        lone == (files@.len() == 1 && files@[0]@ == "-"@),
{
    files.len() == 1 && is_stdin(files[0].as_str())
}

/// The label of a source that is counted line by line: `stdin` for standard input, else
/// the token itself.
pub fn display_name<'a>(token: &'a str) -> (name: &'a str)
    ensures
        name@ == if token@ == "-"@ {
            "stdin"@
        } else {
            token@
        },
{
    if is_stdin(token) {
        "stdin"
    } else {
        token
    }
}

/// The label of standard input counted as one buffer.
pub fn blob_label() -> (name: &'static str)
    ensures
        name@ == "stdin (keyboard input)"@,
{
    "stdin (keyboard input)"
}

/// The line with the total, under the label `Total`: present exactly when the policy is
/// `Always`, whatever the total is.
pub fn total_line(policy: &TotalWhen, total: &FileInfo, shown: &Selection) -> (line: Option<
    String,
>)
    ensures
        line is Some <==> *policy == TotalWhen::Always,
        line is Some ==> line.unwrap()@ == rendered("Total"@, total@, *shown),
{
    if policy.shows_total() {
        Some(display("Total", total, shown))
    } else {
        None
    }
}

/// The message for a source that could not be read: its token, a colon and the cause.
pub fn failure_message(token: &str, cause: &str) -> (message: String)
    ensures
        message@ == token@ + ": "@ + cause@,
{
    let mut message = String::from_str(token);
    message.append(": ");
    message.append(cause);
    message
}

} // verus!
