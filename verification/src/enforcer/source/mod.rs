//! Where dependencies come from.

use crate::backend::file::Checked;
use crate::enforcer::dependency::Dependency;
use crate::enforcer::outcome::Outcome;
use crate::highlight::Range;
use vstd::prelude::*;

pub mod cargo;
pub mod detect;
pub mod maven;
pub mod sbom;

pub use detect::AutoSource;

verus! {

/// Why a source could not name its dependencies or place one of them.
#[derive(Debug, PartialEq, Eq)]
pub enum Error {
    /// A file could not be read, or a tool could not be run; the text says why.
    Io(String),
    /// A manifest, lock file or bill of materials could not be understood.
    Parse(String),
    /// A package coordinate is no URL.
    Purl(String),
    /// A part of a package coordinate is too long to be written into a URL.
    TooLong,
    /// A path has no `file:` URL.
    Location,
    /// No manifest was found.
    NotFound,
}

impl Error {
    /// The failure in words.
    pub open spec fn text(self) -> Seq<char> {
        match self {
            Error::Io(reason) => reason@,
            Error::Parse(reason) => reason@,
            Error::Purl(reason) => "Not a package URL: "@ + reason@,
            Error::TooLong => "A part of a package URL is too long"@,
            Error::Location => "Failed to build path URI"@,
            Error::NotFound => "entity not found"@,
        }
    }

    /// The failure in words.
    pub fn to_text(&self) -> (text: String)
        ensures
            text@ == self.text(),
    {
        match self {
            Error::Io(reason) => reason.clone(),
            Error::Parse(reason) => reason.clone(),
            Error::Purl(reason) => {
                let mut text = String::from_str("Not a package URL: ");
                text.append(reason.as_str());
                text
            },
            Error::TooLong => String::from_str("A part of a package URL is too long"),
            Error::Location => String::from_str("Failed to build path URI"),
            Error::NotFound => String::from_str("entity not found"),
        }
    }
}

/// A source of dependencies.
pub trait Source {
    /// Scans the source for dependencies.
    fn scan(&self) -> Result<Vec<Dependency>, Error>;

    /// Finds the range to highlight for a dependency, and the document that holds it.
    fn highlight(&self, dependency: &Dependency) -> Result<(String, Range), Error>;
}

/// One result of an evaluation with the engine's answer as it came.
#[derive(Debug)]
pub struct Answered {
    pub dependency: Dependency,
    pub outcome: Outcome,
    /// The engine's answer as it came, for the curious.
    pub raw: String,
}

/// The place of a dependency, going by an answer of a source: the place that the source
/// gives, and none where the source fails.
pub open spec fn place_of(answer: Result<(String, Range), Error>) -> Option<(String, Range)> {
    match answer {
        Ok(place) => Some(place),
        Err(_) => None,
    }
}

/// Whether `place` is where `source` places `dependency`: there is an answer that the
/// source gives for this dependency, and `place` goes by it.
pub open spec fn is_placed<S: Source>(source: &S, dependency: Dependency, place: Option<(String, Range)>) -> bool {
    exists|answer: Result<(String, Range), Error>| #[trigger]
        call_ensures(S::highlight, (source, &dependency), answer) && place == place_of(answer)
}

/// Asks `source` where each dependency is declared, and puts the answer beside the result
/// for that dependency. A dependency that the source cannot place has no place.
pub fn locate<S: Source>(source: &S, results: Vec<Answered>) -> (checked: Vec<Checked>)
    ensures
        checked.len() == results.len(),
        forall|i: int|
            0 <= i < checked.len() ==> {
                &&& (#[trigger] checked[i]).dependency == results[i].dependency
                &&& checked[i].outcome == results[i].outcome
                &&& checked[i].raw == results[i].raw
                &&& is_placed(source, results[i].dependency, checked[i].place)
            },
{
    let mut rest = results;
    let ghost all = rest@;
    let mut checked: Vec<Checked> = Vec::new();
    while rest.len() > 0
        invariant
            all == results@,
            checked.len() + rest.len() == all.len(),
            rest@ == all.skip(checked.len() as int),
            forall|i: int|
                0 <= i < checked.len() ==> {
                    &&& (#[trigger] checked[i]).dependency == all[i].dependency
                    &&& checked[i].outcome == all[i].outcome
                    &&& checked[i].raw == all[i].raw
                    &&& is_placed(source, all[i].dependency, checked[i].place)
                },
        decreases rest.len(),
    {
        let Answered { dependency, outcome, raw } = rest.remove(0);
        assert(rest@ =~= all.skip(checked.len() + 1));
        let answer = source.highlight(&dependency);
        let ghost given = answer;
        let place = match answer {
            Ok(place) => Some(place),
            Err(_) => None,
        };
        assert(call_ensures(S::highlight, (source, &dependency), given) && place == place_of(given));
        checked.push(Checked { dependency, outcome, place, raw });
    }
    checked
}

} // verus!
