//! What flows into the console: submitted input lines and the feedback that
//! command handlers send back.

use vstd::prelude::*;
use crate::pattern::{compile, compiled, replace_all, replaced};
use crate::record::Level;
use crate::text::{trim, trimmed};

verus! {

/// The pattern of the backquotes that open a line: the key that opens the
/// console types them.
pub open spec fn ticks() -> Seq<char> {
    "^`+"@
}

/// `value` without the backquotes that open it, as `regex` takes them out.
pub open spec fn unticked(value: Seq<char>) -> Seq<char> {
    match compiled(ticks()) {
        Some(re) => replaced(re, value, ""@),
        None => value,
    }
}

/// A submitted input line.
#[derive(Debug, PartialEq, Eq)]
pub struct Execute(pub String);

impl Execute {
    /// The line without the backquotes that open it and without surrounding
    /// whitespace.
    pub fn new(value: String) -> (r: Self)
        ensures
            r.0@ == trimmed(unticked(value@)),
    {
        let bare = match compile("^`+") {
            Some(re) => replace_all(&re, value.as_str(), ""),
            None => value,
        };
        Execute(trim(bare.as_str()).to_string())
    }

    /// The line without surrounding whitespace.
    pub fn trim(&self) -> (r: &str)
        ensures
            r@ == trimmed(self.0@),
    {
        trim(self.0.as_str())
    }
}

/// What a command handler reports once it has run.
#[derive(Debug, PartialEq, Eq)]
pub enum Feedback {
    /// A message to append to the log.
    Append(String, Level),
    /// A message to put in place of the newest line of the log.
    Replace(String, Level),
}

} // verus!
