//! Serving an editor.

use vstd::prelude::*;

verus! {

/// The command that serves an editor over the language server protocol. It takes no
/// arguments.
#[derive(Debug, PartialEq, Eq)]
pub struct Lsp {}

impl Lsp {
    /// The name that the server gives itself.
    pub fn server_name() -> (name: &'static str)
        ensures
            name@ == "Seedwing Enforcer"@,
    {
        "Seedwing Enforcer"
    }
}

} // verus!
