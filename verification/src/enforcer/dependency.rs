//! The unit that is checked against the policy.

use crate::utils::location::{parse_url, parsed_url};
use vstd::prelude::*;

verus! {

/// A package that a project depends on, known by its package URL.
#[derive(Debug, PartialEq, Eq)]
pub struct Dependency {
    /// The package URL, as written out by the URL parser.
    pub purl: String,
}

impl View for Dependency {
    type V = Seq<char>;

    /// A dependency is its package URL and nothing else.
    open spec fn view(&self) -> Seq<char> {
        self.purl@
    }
}

impl Clone for Dependency {
    fn clone(&self) -> (copy: Self)
        ensures
            copy == *self,
    {
        Dependency { purl: self.purl.clone() }
    }
}

impl Dependency {
    /// The dependency that `text` names, where `text` is a URL.
    pub fn parse(text: &str) -> (dependency: Option<Dependency>)
        ensures
            match dependency {
                Some(found) => parsed_url(text@) == Some(found@),
                None => parsed_url(text@).is_none(),
            },
    {
        match parse_url(text) {
            Some(purl) => Some(Dependency { purl }),
            None => None,
        }
    }

    /// The key under which results for this dependency are kept: its package URL.
    pub fn cache_key(&self) -> (key: &str)
        ensures
            key@ == self@,
    {
        self.purl.as_str()
    }

    /// The dependency written out: its package URL.
    pub fn to_text(&self) -> (text: String)
        ensures
            text@ == self@,
    {
        self.purl.clone()
    }
}

/// What a list of dependencies looks like to a reader.
pub open spec fn purls(dependencies: Seq<Dependency>) -> Seq<Seq<char>> {
    Seq::new(dependencies.len(), |i: int| dependencies[i]@)
}

} // verus!
