//! What went wrong, in words.

use vstd::prelude::*;

use crate::text::opt_text;

verus! {

/// A failure: what was attempted, and what lies beneath it where something else does.
#[derive(Debug)]
pub struct Fault {
    pub message: String,
    pub cause: Option<String>,
}

/// A [`Fault`], as characters.
pub struct FaultView {
    pub message: Seq<char>,
    pub cause: Option<Seq<char>>,
}

impl View for Fault {
    type V = FaultView;

    open spec fn view(&self) -> FaultView {
        FaultView { message: self.message@, cause: opt_text(self.cause) }
    }
}

/// A failure with nothing beneath it.
pub open spec fn plain(message: Seq<char>) -> FaultView {
    FaultView { message, cause: None }
}

/// A failure with `cause` beneath it.
pub open spec fn caused(message: Seq<char>, cause: Seq<char>) -> FaultView {
    FaultView { message, cause: Some(cause) }
}

impl Fault {
    /// A failure with nothing beneath it.
    pub fn plain(message: String) -> (r: Fault)
        ensures
            r@ == plain(message@),
    {
        Fault { message, cause: None }
    }

    /// A failure with `cause` beneath it.
    pub fn caused(message: &str, cause: &str) -> (r: Fault)
        ensures
            r@ == caused(message@, cause@),
    {
        Fault { message: message.to_string(), cause: Some(cause.to_string()) }
    }
}

} // verus!
