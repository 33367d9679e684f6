//! What a Maven manifest holds.

use crate::enforcer::dependency::Dependency as PackageDependency;
use crate::enforcer::source::Error;
use crate::utils::location::{append_query_pair, fits, parse_url, parsed_url, with_query_pair, QUERY_TEXT_MAX};
use vstd::prelude::*;

verus! {

/// A Maven manifest.
#[derive(Debug, PartialEq, Eq)]
pub struct Project {
    pub model_version: String,
    pub group_id: String,
    pub artifact_id: String,
    pub version: String,
    pub dependencies: Dependencies,
}

/// The dependencies that a manifest declares.
#[derive(Debug, PartialEq, Eq)]
pub struct Dependencies {
    pub dependency: Vec<Dependency>,
}

/// When a dependency is needed.
#[derive(Copy, Clone, Debug, PartialEq, Eq, Structural)]
pub enum Scope {
    Compile,
    Provided,
    Runtime,
    Test,
    System,
    Import,
}

impl Default for Scope {
    fn default() -> (scope: Self)
        ensures
            scope == Scope::Compile,
    {
        Scope::Compile
    }
}

/// One dependency as a manifest declares it.
#[derive(Debug, PartialEq, Eq)]
pub struct Dependency {
    pub group_id: String,
    pub artifact_id: String,
    pub version: String,
    pub kind: Option<String>,
    pub classifier: Option<String>,
    pub scope: Scope,
}

/// The coordinate of a Maven artifact: `pkg:maven/`, the group, `/`, the artifact, `@`, the
/// version.
pub open spec fn maven_purl(group: Seq<char>, artifact: Seq<char>, version: Seq<char>) -> Seq<char> {
    "pkg:maven/"@ + group + "/"@ + artifact + "@"@ + version
}

/// The package URL after a qualifier was added, where there is one to add, or the reason
/// why it could not be added.
pub open spec fn qualified(url: Seq<char>, key: Seq<char>, value: Option<Seq<char>>) -> Result<Seq<char>, Error> {
    match value {
        None => Ok(url),
        Some(text) => if !fits(url) || !fits(key) || !fits(text) {
            Err(Error::TooLong)
        } else {
            match with_query_pair(url, key, text) {
                Some(extended) => Ok(extended),
                None => Err(Error::Location),
            }
        },
    }
}

/// What an optional text looks like to a reader.
pub open spec fn text_of(value: Option<String>) -> Option<Seq<char>> {
    match value {
        Some(text) => Some(text@),
        None => None,
    }
}

/// Adds a qualifier to a package URL, where there is one to add.
fn qualify(url: String, key: &str, value: &Option<String>) -> (extended: Result<String, Error>)
    ensures
        match extended {
            Ok(text) => qualified(url@, key@, text_of(*value)) == Ok::<Seq<char>, Error>(text@),
            Err(error) => qualified(url@, key@, text_of(*value)) == Err::<Seq<char>, Error>(error),
        },
{
    match value {
        None => Ok(url),
        Some(text) => {
            if url.as_str().len() > QUERY_TEXT_MAX || key.len() > QUERY_TEXT_MAX || text.as_str().len() > QUERY_TEXT_MAX {
                return Err(Error::TooLong);
            }
            match append_query_pair(url.as_str(), key, text.as_str()) {
                Some(extended) => Ok(extended),
                None => Err(Error::Location),
            }
        },
    }
}

/// The package URL that a declaration stands for: the coordinate of the artifact, with the
/// type and the classifier as qualifiers where they are given. Nothing where the coordinate
/// is no URL or a qualifier cannot be added.
pub open spec fn purl_of(declared: Dependency) -> Option<Seq<char>> {
    match parsed_url(maven_purl(declared.group_id@, declared.artifact_id@, declared.version@)) {
        None => None,
        Some(plain) => match qualified(plain, "type"@, text_of(declared.kind)) {
            Err(_) => None,
            Ok(typed) => match qualified(typed, "classifier"@, text_of(declared.classifier)) {
                Err(_) => None,
                Ok(full) => Some(full),
            },
        },
    }
}

impl Dependency {
    /// The dependency that this declaration stands for: the coordinate of the artifact as a
    /// package URL, with the type and the classifier as qualifiers where they are given.
    pub fn try_into_dependency(&self) -> (converted: Result<PackageDependency, Error>)
        ensures
            match converted {
                Ok(dependency) => purl_of(*self) == Some(dependency@),
                Err(_) => purl_of(*self).is_none(),
            },
            match parsed_url(maven_purl(self.group_id@, self.artifact_id@, self.version@)) {
                None => converted matches Err(Error::Purl(text)) && text@ == maven_purl(
                    self.group_id@,
                    self.artifact_id@,
                    self.version@,
                ),
                Some(plain) => match qualified(plain, "type"@, text_of(self.kind)) {
                    Err(error) => converted == Err::<PackageDependency, Error>(error),
                    Ok(typed) => match qualified(typed, "classifier"@, text_of(self.classifier)) {
                        Err(error) => converted == Err::<PackageDependency, Error>(error),
                        Ok(full) => converted matches Ok(dependency) && dependency@ == full,
                    },
                },
            },
    {
        let mut text = String::from_str("pkg:maven/");
        text.append(self.group_id.as_str());
        text.append("/");
        text.append(self.artifact_id.as_str());
        text.append("@");
        text.append(self.version.as_str());
        let plain = match parse_url(text.as_str()) {
            Some(plain) => plain,
            None => return Err(Error::Purl(text)),
        };
        let typed = match qualify(plain, "type", &self.kind) {
            Ok(typed) => typed,
            Err(error) => return Err(error),
        };
        match qualify(typed, "classifier", &self.classifier) {
            Ok(purl) => Ok(PackageDependency { purl }),
            Err(error) => Err(error),
        }
    }
}

} // verus!
