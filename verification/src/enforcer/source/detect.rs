//! Finding out which manifest a project has.

use crate::config::{Config, ManifestType};
use crate::enforcer::source::cargo::CARGO_FILE;
use crate::enforcer::source::maven::MAVEN_FILE;
use crate::enforcer::source::Error;
use crate::utils::paths::{ends_with, is_named};
use vstd::prelude::*;

verus! {

/// What the file system says of a path.
#[derive(Copy, Clone, Debug, PartialEq, Eq, Structural)]
pub struct Probe {
    /// The path is a directory.
    pub is_dir: bool,
    /// The directory holds a Cargo manifest.
    pub has_cargo: bool,
    /// The directory holds a Maven manifest.
    pub has_maven: bool,
}

/// The manifest that a path has, going by what is there: a directory has the manifest that
/// it holds, Cargo before Maven, and a file is the manifest that its name says.
pub open spec fn detected(path: Seq<char>, probe: Probe) -> Option<ManifestType> {
    if probe.is_dir {
        if probe.has_cargo {
            Some(ManifestType::Cargo)
        } else if probe.has_maven {
            Some(ManifestType::Maven)
        } else {
            None
        }
    } else if is_named(path, CARGO_FILE@) {
        Some(ManifestType::Cargo)
    } else if is_named(path, MAVEN_FILE@) {
        Some(ManifestType::Maven)
    } else {
        None
    }
}

/// The manifest to read for a project: the one that the configuration names, and else the
/// one that is found.
pub open spec fn chosen(path: Seq<char>, config: Option<Config>, probe: Probe) -> Option<ManifestType> {
    match config {
        Some(Config { enforcer, .. }) => match enforcer.source {
            Some(wanted) => Some(wanted),
            None => detected(path, probe),
        },
        None => detected(path, probe),
    }
}

/// The manifest that a path has, going by what is there.
pub fn autodetect(path: &str, probe: Probe) -> (found: Result<ManifestType, Error>)
    ensures
        match found {
            Ok(kind) => detected(path@, probe) == Some(kind),
            Err(error) => detected(path@, probe).is_none() && error == Error::NotFound,
        },
{
    if probe.is_dir {
        if probe.has_cargo {
            return Ok(ManifestType::Cargo);
        }
        if probe.has_maven {
            return Ok(ManifestType::Maven);
        }
    } else if ends_with(path, CARGO_FILE) {
        return Ok(ManifestType::Cargo);
    } else if ends_with(path, MAVEN_FILE) {
        return Ok(ManifestType::Maven);
    }
    Err(Error::NotFound)
}

/// Chooses the source of dependencies for a project.
pub struct AutoSource {}

impl AutoSource {
    /// The manifest to read for the project in `path`.
    pub fn find_source(path: &str, config: &Option<Config>, probe: Probe) -> (found: Result<ManifestType, Error>)
        ensures
            match found {
                Ok(kind) => chosen(path@, *config, probe) == Some(kind),
                Err(error) => chosen(path@, *config, probe).is_none() && error == Error::NotFound,
            },
    {
        match config {
            Some(config) => match config.enforcer.source {
                Some(ManifestType::Cargo) => Ok(ManifestType::Cargo),
                Some(ManifestType::Maven) => Ok(ManifestType::Maven),
                None => autodetect(path, probe),
            },
            None => autodetect(path, probe),
        }
    }
}

} // verus!
