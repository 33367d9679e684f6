//! Dependencies of a Cargo project, from its lock file.

use crate::enforcer::dependency::Dependency;
use crate::enforcer::source::Error;
use crate::highlight::Range;
use crate::utils::location::{file_url, file_url_of, parsed_url};
use crate::utils::packages::{lock_packages, locked_packages, pairs_of};
use crate::utils::paths::{join, joined};
use vstd::prelude::*;

verus! {

/// The manifest of a Cargo project.
pub const CARGO_FILE: &'static str = "Cargo.toml";

/// The lock file of a Cargo workspace.
pub const CARGO_LOCK: &'static str = "Cargo.lock";

/// The package URL of a crate: `pkg:cargo/`, the name, `@`, the version.
pub open spec fn cargo_purl(name: Seq<char>, version: Seq<char>) -> Seq<char> {
    "pkg:cargo/"@ + name + "@"@ + version
}

/// The dependency that a locked package stands for; nothing where its coordinate is no URL.
pub fn package_to_purl(name: &str, version: &str) -> (dependency: Option<Dependency>)
    ensures
        match dependency {
            Some(found) => parsed_url(cargo_purl(name@, version@)) == Some(found@),
            None => parsed_url(cargo_purl(name@, version@)).is_none(),
        },
{
    let mut text = String::from_str("pkg:cargo/");
    text.append(name);
    text.append("@");
    text.append(version);
    Dependency::parse(text.as_str())
}

/// The dependencies that a list of locked packages stands for, in order. A package whose
/// coordinate is no URL is left out.
pub open spec fn locked_dependencies(packages: Seq<(Seq<char>, Seq<char>)>) -> Seq<Seq<char>>
    decreases packages.len(),
{
    if packages.len() == 0 {
        Seq::empty()
    } else {
        let before = locked_dependencies(packages.drop_last());
        match parsed_url(cargo_purl(packages.last().0, packages.last().1)) {
            Some(purl) => before.push(purl),
            None => before,
        }
    }
}

/// Reads the dependencies of a Cargo project.
pub struct CargoSource {
    root: String,
}

impl CargoSource {
    /// The directory of the project.
    pub closed spec fn location(&self) -> Seq<char> {
        self.root@
    }

    /// A source for the project in `root`.
    pub fn new(root: String) -> (source: Self)
        ensures
            source.location() == root@,
    {
        CargoSource { root }
    }

    /// The manifest of the project.
    pub fn manifest_path(&self) -> (path: String)
        ensures
            path@ == joined(self.location(), CARGO_FILE@),
    {
        join(self.root.as_str(), CARGO_FILE)
    }

    /// The lock file of the workspace in `workspace_root`.
    pub fn lockfile_path(workspace_root: &str) -> (path: String)
        ensures
            path@ == joined(workspace_root@, CARGO_LOCK@),
    {
        join(workspace_root, CARGO_LOCK)
    }

    /// The dependencies that the text of a lock file names: one for each package, in order.
    pub fn dependencies(lockfile: &str) -> (found: Result<Vec<Dependency>, Error>)
        ensures
            match found {
                Ok(list) => locked_packages(lockfile@) matches Some(packages)
                    && crate::enforcer::dependency::purls(list@)
                    == locked_dependencies(packages),
                Err(error) => locked_packages(lockfile@).is_none() && error is Parse,
            },
    {
        let packages = match lock_packages(lockfile) {
            Ok(packages) => packages,
            Err(reason) => return Err(Error::Parse(reason)),
        };
        let ghost named = pairs_of(packages@);
        let mut list: Vec<Dependency> = Vec::new();
        let mut i: usize = 0;
        assert(named.take(0) =~= Seq::empty());
        assert(crate::enforcer::dependency::purls(list@) =~= Seq::empty());
        while i < packages.len()
            invariant
                i <= packages.len(),
                named == pairs_of(packages@),
                crate::enforcer::dependency::purls(list@) == locked_dependencies(named.take(i as int)),
            decreases packages.len() - i,
        {
            let ghost before = crate::enforcer::dependency::purls(list@);
            assert(named.take(i + 1).drop_last() =~= named.take(i as int));
            assert(named.take(i + 1).last() == named[i as int]);
            match package_to_purl(packages[i].0.as_str(), packages[i].1.as_str()) {
                Some(dependency) => {
                    list.push(dependency);
                    assert(crate::enforcer::dependency::purls(list@) =~= before.push(dependency@));
                },
                None => {},
            }
            i += 1;
        }
        assert(named.take(packages.len() as int) =~= named);
        Ok(list)
    }

    /// Where a dependency is declared: in the manifest, at no place in particular.
    pub fn highlight(&self, _dependency: &Dependency) -> (place: Result<(String, Range), Error>)
        ensures
            match place {
                Ok((url, range)) => file_url_of(joined(self.location(), CARGO_FILE@)) == Some(url@) && range
                    == Range::origin(),
                Err(error) => file_url_of(joined(self.location(), CARGO_FILE@)).is_none() && error == Error::Location,
            },
    {
        let path = self.manifest_path();
        match file_url(path.as_str()) {
            Some(url) => Ok((url, Range::default())),
            None => Err(Error::Location),
        }
    }
}

} // verus!
