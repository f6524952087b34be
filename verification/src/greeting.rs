//! The greeting the tool answers with when it is asked for nothing else.
use vstd::prelude::*;

verus! {

/// The greeting text.
pub open spec fn hello_text() -> Seq<char> {
    "byi is installed and ready."@
}

/// The message the tool prints when it runs without a command.
pub fn hello_message() -> (s: String)
    ensures
        s@ == hello_text(),
{
    String::from_str("byi is installed and ready.")
}

} // verus!
