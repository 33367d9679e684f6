//! What can go wrong while a policy is loaded and applied.

use crate::utils::pool::PoolError;
use crate::utils::text::{decimal, decimal_text};
use vstd::prelude::*;

verus! {

/// A stretch of a policy source, in characters from its start; the end is not included.
#[derive(Copy, Clone, Debug, PartialEq, Eq, Structural)]
pub struct Span {
    pub start: usize,
    pub end: usize,
}

impl Span {
    /// The span written as `start..end`.
    pub open spec fn text(self) -> Seq<char> {
        decimal_text(self.start as nat) + ".."@ + decimal_text(self.end as nat)
    }

    /// The span written as `start..end`.
    pub fn to_text(&self) -> (text: String)
        ensures
            text@ == self.text(),
    {
        let mut text = decimal(self.start);
        text.append("..");
        let end = decimal(self.end);
        text.append(end.as_str());
        text
    }
}

/// One fault in a policy source, with the place where it was found.
#[derive(Debug, PartialEq, Eq)]
pub enum BuildError {
    /// The source does not parse; the text says why.
    Parser(Span, String),
    /// A rule is used with arguments that it does not take.
    ArgumentMismatch(Span),
    /// A rule refers to a pattern that does not exist; the text names it.
    PatternNotFound(Span, String),
}

impl BuildError {
    /// Where the fault was found.
    pub open spec fn place(self) -> Span {
        match self {
            BuildError::Parser(span, _) => span,
            BuildError::ArgumentMismatch(span) => span,
            BuildError::PatternNotFound(span, _) => span,
        }
    }

    /// What the fault is, without its place.
    pub open spec fn summary(self) -> Seq<char> {
        match self {
            BuildError::Parser(_, message) => message@,
            BuildError::ArgumentMismatch(_) => "Argument mismatch"@,
            BuildError::PatternNotFound(_, name) => "Pattern not found: "@ + name@,
        }
    }

    /// What the fault is, followed by its place in brackets.
    pub open spec fn text(self) -> Seq<char> {
        self.summary() + " ("@ + self.place().text() + ")"@
    }

    /// Where the fault was found.
    pub fn span(&self) -> (span: Span)
        ensures
            span == self.place(),
    {
        match self {
            BuildError::Parser(span, _) => *span,
            BuildError::ArgumentMismatch(span) => *span,
            BuildError::PatternNotFound(span, _) => *span,
        }
    }

    /// What the fault is, followed by its place in brackets.
    pub fn message(&self) -> (text: String)
        ensures
            text@ == self.text(),
    {
        let mut text = match self {
            BuildError::Parser(_, message) => message.clone(),
            BuildError::ArgumentMismatch(_) => String::from_str("Argument mismatch"),
            BuildError::PatternNotFound(_, name) => {
                let mut text = String::from_str("Pattern not found: ");
                text.append(name.as_str());
                text
            },
        };
        text.append(" (");
        let place = self.span().to_text();
        text.append(place.as_str());
        text.append(")");
        text
    }
}

/// Why an evaluation failed as a whole.
#[derive(Debug)]
pub enum Error {
    /// The configuration could not be loaded.
    Configuration(String),
    /// The execution slot that ran the evaluation terminated abnormally.
    Join(PoolError),
    /// The policy source could not be read.
    Io(String),
    /// A dependency could not be turned into an input of the engine.
    Serialization(String),
    /// The policy source, named first, does not parse.
    ParsePolicy(String, Vec<BuildError>),
    /// No runtime could be built from the policy.
    BuildRuntime(Vec<BuildError>),
    /// The engine failed while it evaluated.
    Runtime(String),
}

impl Error {
    /// The failure in words.
    pub open spec fn text(self) -> Seq<char> {
        match self {
            Error::Configuration(reason) => "configuration error: "@ + reason@,
            Error::Join(_) => "failed to run: "@ + "join error"@,
            Error::Io(reason) => "I/O error: "@ + reason@,
            Error::Serialization(reason) => "serialization error: "@ + reason@,
            Error::ParsePolicy(source, _) => "parse policy error: "@ + source@,
            Error::BuildRuntime(_) => "build runtime error"@,
            Error::Runtime(reason) => "runtime error: "@ + reason@,
        }
    }

    /// The failure in words.
    pub fn to_text(&self) -> (text: String)
        ensures
            text@ == self.text(),
    {
        match self {
            Error::Configuration(reason) => {
                let mut text = String::from_str("configuration error: ");
                text.append(reason.as_str());
                text
            },
            Error::Join(error) => {
                let mut text = String::from_str("failed to run: ");
                let reason = error.message();
                text.append(reason.as_str());
                text
            },
            Error::Io(reason) => {
                let mut text = String::from_str("I/O error: ");
                text.append(reason.as_str());
                text
            },
            Error::Serialization(reason) => {
                let mut text = String::from_str("serialization error: ");
                text.append(reason.as_str());
                text
            },
            Error::ParsePolicy(source, _) => {
                let mut text = String::from_str("parse policy error: ");
                text.append(source.as_str());
                text
            },
            Error::BuildRuntime(_) => String::from_str("build runtime error"),
            Error::Runtime(reason) => {
                let mut text = String::from_str("runtime error: ");
                text.append(reason.as_str());
                text
            },
        }
    }
}

} // verus!
