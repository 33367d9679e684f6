//! Problems reported against a location, as an editor shows them.

use crate::highlight::Range;
use crate::protocol::Report;
use vstd::prelude::*;

verus! {

/// How serious a reported problem is.
#[derive(Copy, Clone, Debug, PartialEq, Eq, Structural)]
pub enum DiagnosticSeverity {
    Error,
    Warning,
    Information,
    Hint,
}

/// One problem, placed in a document.
#[derive(Debug, PartialEq, Eq)]
pub struct Diagnostic {
    pub range: Range,
    pub severity: Option<DiagnosticSeverity>,
    pub message: String,
    pub data: Option<Report>,
}

impl Clone for Diagnostic {
    fn clone(&self) -> (copy: Self)
        ensures
            copy == *self,
    {
        Diagnostic {
            range: self.range,
            severity: self.severity,
            message: self.message.clone(),
            data: match &self.data {
                Some(report) => Some(report.clone()),
                None => None,
            },
        }
    }
}

impl Diagnostic {
    /// A problem with a message and severity only, placed at the start of the document.
    pub fn plain(severity: DiagnosticSeverity, message: String) -> (diagnostic: Self)
        ensures
            diagnostic.message == message,
            diagnostic.severity == Some(severity),
            diagnostic.data.is_none(),
            diagnostic.range == Range::origin(),
    {
        Diagnostic { range: Range::default(), severity: Some(severity), message, data: None }
    }
}

} // verus!
