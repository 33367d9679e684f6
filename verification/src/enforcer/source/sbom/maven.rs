//! A bill of materials for a Maven project, made by Maven's CycloneDX plugin.

use crate::enforcer::source::maven::MAVEN_FILE;
use crate::enforcer::source::sbom::{CycloneDXFormat, CycloneDXVersion, Output, Type};
use crate::enforcer::source::Error;
use crate::highlight::{below_root, nested, whole_range, Highlighter, Range};
use crate::utils::location::{file_url, file_url_of};
use crate::utils::paths::{join, joined};
use crate::utils::xml::xml_nodes;
use vstd::prelude::*;

verus! {

/// The name of the wrapper script that a Maven project may bring along.
pub const MVN_WRAPPER: &'static str = "mvnw";

/// The section of a manifest that declares dependencies.
pub const DEPENDENCIES: &'static str = "dependencies";

/// The section of a manifest that manages the versions of dependencies.
pub const DEPENDENCY_MANAGEMENT: &'static str = "dependencyManagement";

/// Lets Maven make a bill of materials for a project.
pub struct MavenGenerator {
    root: String,
}

/// The range to highlight in a manifest for any dependency: the section that declares
/// dependencies; where that section cannot be placed, the one below the section that
/// manages them; and the whole manifest where there is neither.
pub open spec fn place_in(text: Seq<char>) -> Option<Result<Range, crate::highlight::Error>> {
    match xml_nodes(text) {
        None => None,
        Some(nodes) => Some(
            match below_root(text, nodes, DEPENDENCIES@) {
                Ok(Some(range)) => Ok(range),
                Ok(None) => Ok(whole_range(text)),
                Err(_) => match nested(text, nodes, DEPENDENCY_MANAGEMENT@, DEPENDENCIES@) {
                    Ok(Some(range)) => Ok(range),
                    Ok(None) => Ok(whole_range(text)),
                    Err(error) => Err(error),
                },
            },
        ),
    }
}

impl MavenGenerator {
    /// The directory of the project.
    pub closed spec fn location(&self) -> Seq<char> {
        self.root@
    }

    /// A generator for the project in `root`.
    pub fn new(root: String) -> (generator: Self)
        ensures
            generator.location() == root@,
    {
        MavenGenerator { root }
    }

    /// The directory of the project.
    pub fn root(&self) -> (root: &str)
        ensures
            root@ == self.location(),
    {
        self.root.as_str()
    }

    /// The manifest of the project.
    pub fn manifest_path(&self) -> (path: String)
        ensures
            path@ == joined(self.location(), MAVEN_FILE@),
    {
        join(self.root.as_str(), MAVEN_FILE)
    }

    /// The wrapper script of the project, to be used where Maven itself is not installed.
    pub fn wrapper_path(&self) -> (path: String)
        ensures
            path@ == joined(self.location(), MVN_WRAPPER@),
    {
        join(self.root.as_str(), MVN_WRAPPER)
    }

    /// The file into which Maven writes the bill of materials.
    pub fn bom_path(&self) -> (path: String)
        ensures
            path@ == joined(joined(self.location(), "target"@), "bom.json"@),
    {
        let target = join(self.root.as_str(), "target");
        join(target.as_str(), "bom.json")
    }

    /// The arguments with which Maven makes the bill of materials.
    pub fn arguments() -> (arguments: Vec<&'static str>)
        ensures
            arguments@.len() == 5,
            arguments@[0]@ == "org.cyclonedx:cyclonedx-maven-plugin:2.7.5:makeAggregateBom"@,
            arguments@[1]@ == "-Dcyclonedx.skipAttach=true"@,
            arguments@[2]@ == "-DoutputFormat=json"@,
            arguments@[3]@ == "-DschemaVersion=1.3"@,
            arguments@[4]@ == "-Dcyclonedx.verbose=false"@,
    {
        let mut arguments: Vec<&'static str> = Vec::new();
        arguments.push("org.cyclonedx:cyclonedx-maven-plugin:2.7.5:makeAggregateBom");
        arguments.push("-Dcyclonedx.skipAttach=true");
        arguments.push("-DoutputFormat=json");
        arguments.push("-DschemaVersion=1.3");
        arguments.push("-Dcyclonedx.verbose=false");
        arguments
    }

    /// The bill of materials that Maven wrote, with its kind.
    pub fn output(content: Vec<u8>) -> (output: Output)
        ensures
            output.kind == (Type::CycloneDX { format: CycloneDXFormat::Json, version: CycloneDXVersion::V1_3 }),
            output.content == content,
    {
        Output { kind: Type::CycloneDX { format: CycloneDXFormat::Json, version: CycloneDXVersion::V1_3 }, content }
    }

    /// The place to highlight for any dependency, given the text of the manifest: the
    /// manifest as a `file:` URL, and the range of the section that declares dependencies.
    pub fn highlight(&self, content: &str) -> (place: Result<(String, Range), Error>)
        ensures
            match place {
                Ok((url, range)) => file_url_of(joined(self.location(), MAVEN_FILE@)) == Some(url@)
                    && place_in(content@)
                    == Some(Ok::<Range, crate::highlight::Error>(range)),
                Err(error) => match place_in(content@) {
                    None => error is Parse,
                    Some(Err(_)) => error is Parse,
                    Some(Ok(_)) => file_url_of(joined(self.location(), MAVEN_FILE@)).is_none() && error
                        == Error::Location,
                },
            },
    {
        let highlighter = match Highlighter::new(content) {
            Ok(highlighter) => highlighter,
            Err(crate::highlight::Error::Parse(reason)) => return Err(Error::Parse(reason)),
            Err(crate::highlight::Error::OutOfBounds) => return Err(Error::Parse(String::from_str("out of bounds"))),
        };
        let path = self.manifest_path();
        let url = file_url(path.as_str());
        let first = highlighter.find_below_root(DEPENDENCIES);
        let found = match first {
            Ok(found) => Ok(found),
            Err(_) => highlighter.find_in(DEPENDENCY_MANAGEMENT, DEPENDENCIES),
        };
        let range = match found {
            Ok(Some(range)) => range,
            Ok(None) => highlighter.full_range(),
            Err(_) => return Err(Error::Parse(String::from_str("out of bounds"))),
        };
        match url {
            Some(url) => Ok((url, range)),
            None => Err(Error::Location),
        }
    }
}

} // verus!
