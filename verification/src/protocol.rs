//! Values exchanged with the editor beyond the standard protocol.

use vstd::prelude::*;

verus! {

/// The editor command that opens a rendered report.
pub const SHOW_REPORT: &'static str = "seedwingEnforcer.showReport";

/// A rendered explanation attached to a diagnostic.
#[derive(Debug, PartialEq, Eq)]
pub struct Report {
    pub title: String,
    pub html: String,
}

impl Clone for Report {
    fn clone(&self) -> (copy: Self)
        ensures
            copy == *self,
    {
        Report { title: self.title.clone(), html: self.html.clone() }
    }
}

} // verus!
