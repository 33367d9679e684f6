//! Configuration of a project, as its marker file gives it.

use crate::utils::paths::{join, joined};
use vstd::prelude::*;

verus! {

/// The name of the marker file: a directory that holds it is a project.
pub const FILE_NAME_YAML: &'static str = ".enforcer.yaml";

/// What to check the dependencies against.
#[derive(Debug, PartialEq, Eq)]
pub struct Dependencies {
    /// The file that holds the policy.
    pub policy: String,
    /// The rule of the policy that every dependency has to satisfy.
    pub requires: String,
}

/// How a rationale is handed on.
#[derive(Copy, Clone, Debug, PartialEq, Eq, Structural)]
pub enum RationaleVariant {
    Html,
    Raw,
}

impl Default for RationaleVariant {
    fn default() -> (variant: Self)
        ensures
            variant == RationaleVariant::Html,
    {
        RationaleVariant::Html
    }
}

/// The kind of manifest that declares a project's dependencies.
#[derive(Copy, Clone, Debug, PartialEq, Eq, Structural)]
pub enum ManifestType {
    Cargo,
    Maven,
}

/// Settings of the enforcer itself.
#[derive(Copy, Clone, Debug, PartialEq, Eq, Structural)]
pub struct EnforcerConfig {
    /// The manifest to read, where it is not to be found out from the files present.
    pub source: Option<ManifestType>,
}

impl Default for EnforcerConfig {
    fn default() -> (settings: Self)
        ensures
            settings == (EnforcerConfig { source: None }),
    {
        EnforcerConfig { source: None }
    }
}

/// The content of a marker file.
#[derive(Debug, PartialEq, Eq)]
pub struct Config {
    /// The policy for dependencies; without it nothing is enforced.
    pub dependencies: Option<Dependencies>,
    pub enforcer: EnforcerConfig,
}

impl Clone for Dependencies {
    fn clone(&self) -> (copy: Self)
        ensures
            copy == *self,
    {
        Dependencies { policy: self.policy.clone(), requires: self.requires.clone() }
    }
}

impl Clone for Config {
    fn clone(&self) -> (copy: Self)
        ensures
            copy == *self,
    {
        Config {
            dependencies: match &self.dependencies {
                Some(dependencies) => Some(dependencies.clone()),
                None => None,
            },
            enforcer: self.enforcer,
        }
    }
}

impl Default for Config {
    fn default() -> (config: Self)
        ensures
            config.dependencies.is_none(),
            config.enforcer == (EnforcerConfig { source: None }),
    {
        Config { dependencies: None, enforcer: EnforcerConfig::default() }
    }
}

/// Whether `resolved` is `config` with the policy file placed below `path`.
pub open spec fn is_resolved(config: Config, path: Seq<char>, resolved: Config) -> bool {
    &&& resolved.enforcer == config.enforcer
    &&& match config.dependencies {
        Some(before) => match resolved.dependencies {
            Some(after) => after.requires == before.requires && after.policy@ == joined(path, before.policy@),
            None => false,
        },
        None => resolved.dependencies.is_none(),
    }
}

/// Reads the paths of a configuration as relative to `path`, the directory that holds the
/// marker file.
pub fn resolve(config: Config, path: &str) -> (resolved: Config)
    ensures
        is_resolved(config, path@, resolved),
{
    let Config { dependencies, enforcer } = config;
    match dependencies {
        Some(found) => {
            let policy = join(path, found.policy.as_str());
            Config { dependencies: Some(Dependencies { policy, requires: found.requires }), enforcer }
        },
        None => Config { dependencies: None, enforcer },
    }
}

/// What became of an attempt to read a marker file.
pub enum Loaded {
    /// There is no marker file.
    Missing,
    /// The marker file could not be read or understood; the text says why.
    Failed(String),
    /// The marker file as it stands, paths not yet resolved.
    Parsed(Config),
}

/// The configuration that an attempt to read the marker file in `dir` amounts to: nothing
/// where the file is missing, the failure where there was one, and else the configuration
/// with its paths resolved against `dir`.
pub fn try_load(dir: &str, loaded: Loaded) -> (outcome: Option<Result<Config, String>>)
    ensures
        match loaded {
            Loaded::Missing => outcome.is_none(),
            Loaded::Failed(reason) => outcome == Some(Err::<Config, String>(reason)),
            Loaded::Parsed(config) => match outcome {
                Some(Ok(resolved)) => is_resolved(config, dir@, resolved),
                _ => false,
            },
        },
{
    match loaded {
        Loaded::Missing => None,
        Loaded::Failed(reason) => Some(Err(reason)),
        Loaded::Parsed(config) => Some(Ok(resolve(config, dir))),
    }
}

/// The place of the first attempt, from `from` on, that found a marker file.
pub open spec fn first_found(attempts: Seq<Option<Result<Config, String>>>, from: int) -> Option<int>
    decreases attempts.len() - from,
{
    if from < 0 || from >= attempts.len() {
        None
    } else if attempts[from].is_some() {
        Some(from)
    } else {
        first_found(attempts, from + 1)
    }
}

/// Finds the configuration that governs a directory, given what the attempts to load a
/// marker file gave for the directory itself and for each directory above it, nearest
/// first.
///
/// The nearest marker file decides: its configuration where it loaded, and its failure
/// where it did not. Without any marker file there is no configuration.
pub fn find(attempts: Vec<Option<Result<Config, String>>>) -> (found: Result<Option<Config>, String>)
    ensures
        match first_found(attempts@, 0) {
            Some(at) => match attempts@[at] {
                Some(Ok(config)) => found == Ok::<Option<Config>, String>(Some(config)),
                Some(Err(reason)) => found == Err::<Option<Config>, String>(reason),
                None => false,
            },
            None => found == Ok::<Option<Config>, String>(None),
        },
{
    let mut rest = attempts;
    let ghost all = rest@;
    let mut seen: usize = 0;
    assert(all.len() == rest.len());
    while rest.len() > 0
        invariant
            all == attempts@,
            seen + rest.len() == all.len(),
            all.len() <= usize::MAX,
            rest@ == all.skip(seen as int),
            first_found(all, 0) == first_found(all, seen as int),
        decreases rest.len(),
    {
        let attempt = rest.remove(0);
        assert(attempt == all[seen as int]);
        assert(rest@ =~= all.skip(seen + 1));
        match attempt {
            Some(Ok(config)) => return Ok(Some(config)),
            Some(Err(reason)) => return Err(reason),
            None => {},
        }
        seen += 1;
    }
    Ok(None)
}

} // verus!
