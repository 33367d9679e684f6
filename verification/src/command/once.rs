//! Scanning the dependencies of a project once.

use crate::enforcer::dependency::Dependency;
use crate::enforcer::error::Error;
use crate::enforcer::outcome::Judgement;
use crate::enforcer::runner::results_of;
use vstd::prelude::*;

verus! {

/// How the result of a scan is written out.
#[derive(Debug, Copy, Clone, PartialEq, Eq, PartialOrd, Ord, Structural)]
pub enum Output {
    Markdown,
    Json,
    Yaml,
}

impl Default for Output {
    fn default() -> (output: Self)
        ensures
            output == Output::Markdown,
    {
        Output::Markdown
    }
}

/// The command that scans the dependencies of a project once.
#[derive(Debug, PartialEq, Eq)]
pub struct Once {
    /// The root of the project. Defaults to the current directory.
    pub root: Option<String>,
    /// The output format.
    pub output: Output,
}

impl Once {
    /// The directory to look for a manifest in, where none is given.
    pub fn default_root() -> (root: &'static str)
        ensures
            root@ == "./"@,
    {
        "./"
    }

    /// The directory to look for a manifest in.
    pub fn source_root(&self) -> (root: String)
        ensures
            root@ == (match self.root {
                Some(given) => given@,
                None => "./"@,
            }),
    {
        match &self.root {
            Some(given) => given.clone(),
            None => String::from_str("./"),
        }
    }
}

/// The verdict on a whole scan.
#[derive(Debug, PartialEq, Eq)]
pub enum AggregatedResult {
    /// Every dependency satisfies the policy.
    Accepted,
    /// The policy could not be applied; the text says why.
    ConfigError(String),
    /// At least one dependency does not satisfy the policy.
    Rejected,
}

impl AggregatedResult {
    /// The verdict in one word, as it is written out.
    pub open spec fn word(self) -> Seq<char> {
        match self {
            AggregatedResult::Accepted => "accepted"@,
            AggregatedResult::ConfigError(_) => "configuration-error"@,
            AggregatedResult::Rejected => "rejected"@,
        }
    }

    /// The verdict in one word, as it is written out.
    pub fn label(&self) -> (label: &'static str)
        ensures
            label@ == self.word(),
    {
        match self {
            AggregatedResult::Accepted => "accepted",
            AggregatedResult::ConfigError(_) => "configuration-error",
            AggregatedResult::Rejected => "rejected",
        }
    }
}

/// The result for one dependency.
#[derive(Debug, PartialEq, Eq)]
pub struct PolicyResult {
    pub dependency: Dependency,
    pub response: crate::enforcer::outcome::Outcome,
}

impl PolicyResult {
    /// The result for `dependency`.
    pub fn new(dependency: Dependency, response: &crate::enforcer::outcome::Outcome) -> (result: PolicyResult)
        ensures
            result.dependency == dependency,
            result.response@ == response@,
    {
        PolicyResult { dependency, response: response.clone() }
    }
}

/// The result of a scan: the verdict, and the result for each dependency.
#[derive(Debug, PartialEq, Eq)]
pub struct Outcome {
    pub status: AggregatedResult,
    pub details: Vec<PolicyResult>,
}

/// What a list of results looks like to a reader.
pub open spec fn details_of(details: Seq<PolicyResult>) -> Seq<(Seq<char>, Judgement)> {
    Seq::new(details.len(), |i: int| (details[i].dependency@, details[i].response@))
}

/// The place of the first result that says that the policy could not be applied.
pub open spec fn first_failure(results: Seq<(Seq<char>, Judgement)>, from: int) -> Option<int>
    decreases results.len() - from,
{
    if from < 0 || from >= results.len() {
        None
    } else if results[from].1 is ConfigurationError {
        Some(from)
    } else {
        first_failure(results, from + 1)
    }
}

/// Whether one of the results is a rejection.
pub open spec fn any_rejected(results: Seq<(Seq<char>, Judgement)>) -> bool {
    exists|i: int| 0 <= i < results.len() && (#[trigger] results[i]).1 is Rejected
}

/// Whether `status` is the verdict on `results`: a configuration error where one of them
/// says so, with the message of the first; else rejected where one of them is a rejection;
/// and accepted where every dependency is satisfied.
pub open spec fn is_verdict(status: AggregatedResult, results: Seq<(Seq<char>, Judgement)>) -> bool {
    match first_failure(results, 0) {
        Some(at) => status matches AggregatedResult::ConfigError(message) && Judgement::ConfigurationError(message@)
            == results[at].1,
        None => if any_rejected(results) {
            status == AggregatedResult::Rejected
        } else {
            status == AggregatedResult::Accepted
        },
    }
}

/// The code with which the program ends: zero where the scan is accepted, and one where a
/// dependency is rejected or the configuration is invalid.
pub open spec fn code_of(status: AggregatedResult) -> i32 {
    match status {
        AggregatedResult::Accepted => 0i32,
        _ => 1i32,
    }
}

/// The code with which the program ends.
pub fn exit_code(status: &AggregatedResult) -> (code: i32)
    ensures
        code == code_of(*status),
{
    match status {
        AggregatedResult::Accepted => 0,
        _ => 1,
    }
}

/// The result of a scan whose dependencies could not be gathered: a configuration error
/// that says why, and no details.
pub fn gathering_failed(reason: &crate::enforcer::source::Error) -> (outcome: Outcome)
    ensures
        outcome.status matches AggregatedResult::ConfigError(message) && message@ == reason.text(),
        outcome.details.len() == 0,
{
    Outcome { status: AggregatedResult::ConfigError(reason.to_text()), details: Vec::new() }
}

/// The result of a scan, given what the evaluation came to.
///
/// A failed evaluation is a configuration error, and has no details. Else each dependency
/// is listed with its result, and the verdict is that on the results.
pub fn summarize(scan: Result<Vec<(Dependency, crate::enforcer::outcome::Outcome)>, Error>) -> (outcome: Outcome)
    ensures
        match scan {
            Ok(list) => details_of(outcome.details@) == results_of(list@) && is_verdict(outcome.status,
                results_of(list@)),
            Err(error) => {
                &&& outcome.details.len() == 0
                &&& outcome.status matches AggregatedResult::ConfigError(message) && message@
                    == "Error while scanning dependencies : "@ + error.text()
            },
        },
{
    let list = match scan {
        Ok(list) => list,
        Err(error) => {
            let mut message = String::from_str("Error while scanning dependencies : ");
            let reason = error.to_text();
            message.append(reason.as_str());
            return Outcome { status: AggregatedResult::ConfigError(message), details: Vec::new() };
        },
    };
    let ghost results = results_of(list@);
    let mut rejected = false;
    let mut failure: Option<String> = None;
    let mut details: Vec<PolicyResult> = Vec::new();
    let mut i: usize = 0;
    while i < list.len()
        invariant
            i <= list.len(),
            results == results_of(list@),
            details.len() == i,
            forall|k: int| 0 <= k < i ==> (#[trigger] details[k]).dependency@ == list[k].0@
                && details[k].response@ == list[k].1@,
            rejected <==> exists|k: int| 0 <= k < i && (#[trigger] results[k]).1 is Rejected,
            first_failure(results, 0) == (match failure {
                Some(_) => first_failure(results, 0),
                None => first_failure(results, i as int),
            }),
            match failure {
                Some(message) => first_failure(results, 0) matches Some(at) && Judgement::ConfigurationError(message@)
                    == results[at].1,
                None => true,
            },
        decreases list.len() - i,
    {
        match &list[i].1 {
            crate::enforcer::outcome::Outcome::Satisfied => {},
            crate::enforcer::outcome::Outcome::Rejected(_) => {
                rejected = true;
            },
            crate::enforcer::outcome::Outcome::ConfigurationError(message) => {
                if failure.is_none() {
                    failure = Some(message.clone());
                }
            },
        }
        details.push(PolicyResult::new(list[i].0.clone(), &list[i].1));
        assert(results[i as int].1 == list[i as int].1@);
        i += 1;
    }
    assert(details_of(details@) =~= results);
    let status = match failure {
        Some(message) => AggregatedResult::ConfigError(message),
        None => if rejected {
            AggregatedResult::Rejected
        } else {
            AggregatedResult::Accepted
        },
    };
    Outcome { status, details }
}

} // verus!
