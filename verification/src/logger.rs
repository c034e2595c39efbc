//! Lines of the log.

use vstd::prelude::*;
use crate::clock::Moment;

verus! {

/// A log line: the time, the message, a line end.
pub open spec fn line_of(stamp: Seq<char>, msg: Seq<char>) -> Seq<char> {
    stamp + " - "@ + msg + "\n"@
}

/// Puts a log line together.
pub fn log_line(stamp: &str, msg: &str) -> (r: String)
    ensures
        r@ == line_of(stamp@, msg@),
{
    stamp.to_owned().concat(" - ").concat(msg).concat("\n")
}

/// The log line for a message at an instant; nothing for an instant that cannot be written.
pub fn log_message(at: &Moment, msg: &str) -> (r: Option<String>)
    ensures
        match (at.log_view(), r) {
            (Some(stamp), Some(line)) => line@ == line_of(stamp, msg@),
            (None, None) => true,
            _ => false,
        },
{
    match at.log_stamp() {
        Some(stamp) => Some(log_line(stamp.as_str(), msg)),
        None => None,
    }
}

/// Marks a message as meant for debugging.
pub fn log_debug(msg: &str) -> (r: String)
    ensures
        r@ == "[DEBUG] "@ + msg@,
{
    "[DEBUG] ".to_owned().concat(msg)
}

/// The line behind the state of the node.
pub open spec fn separator() -> Seq<char> {
    "─────────────────────────────────────────────────"@
}

/// The line behind the state of the node.
pub fn log_sep() -> (r: &'static str)
    ensures
        r@ == separator(),
{
    "─────────────────────────────────────────────────"
}

} // verus!
