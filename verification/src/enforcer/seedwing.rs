//! The enforcer of one project: its configuration, its cache, and what is wrong with either.

use crate::config::{Config, FILE_NAME_YAML};
use crate::diagnostic::{Diagnostic, DiagnosticSeverity};
use crate::enforcer::cache::{Cache, DefaultCache};
use crate::enforcer::dependency::{purls, Dependency};
use crate::enforcer::error::{BuildError, Error};
use crate::enforcer::outcome::Judgement;
use crate::enforcer::runner::{Evaluation, Turn};
use crate::highlight::Range;
use crate::utils::paths::{join, joined};
use crate::utils::rope::{rope_from_str, rope_text};
use crate::utils::{span_to_range, spanned};
use vstd::prelude::*;

verus! {

/// Whether `diagnostic` is an error with this message, placed at this range, and nothing more.
pub open spec fn is_error_at(diagnostic: Diagnostic, message: Seq<char>, range: Range) -> bool {
    &&& diagnostic.message@ == message
    &&& diagnostic.severity == Some(DiagnosticSeverity::Error)
    &&& diagnostic.range == range
    &&& diagnostic.data.is_none()
}

/// Where a fault of a policy source is shown: at the range that its span covers in the
/// source, or at the start where the source is not at hand or does not hold the span.
pub open spec fn fault_range(content: Option<Seq<char>>, error: BuildError) -> Range {
    match content {
        Some(text) => match spanned(text, error.place()) {
            Some(range) => range,
            None => Range::origin(),
        },
        None => Range::origin(),
    }
}

/// Turns one fault of a policy source into a diagnostic, with the source at hand or not.
pub struct DiagnosticConverter<'a>(pub &'a Option<ropey::Rope>, pub BuildError);

impl<'a> DiagnosticConverter<'a> {
    /// The text of the source, where it is at hand.
    pub open spec fn content(self) -> Option<Seq<char>> {
        match *self.0 {
            Some(rope) => Some(rope_text(rope)),
            None => None,
        }
    }

    /// The diagnostic for the fault: an error that says what the fault is and where.
    pub fn convert(self) -> (diagnostic: Diagnostic)
        ensures
            is_error_at(diagnostic, self.1.text(), fault_range(self.content(), self.1)),
    {
        let span = self.1.span();
        let message = self.1.message();
        let range = match self.0 {
            Some(rope) => match span_to_range(rope, span) {
                Some(range) => range,
                None => Range::default(),
            },
            None => Range::default(),
        };
        Diagnostic { severity: Some(DiagnosticSeverity::Error), message, range, data: None }
    }
}

/// Turns the faults of a policy source into diagnostics, one for each fault, in order.
/// `content` is the text of the source, where it could be read.
pub fn diag_from_build_errors(content: Option<&str>, errors: Vec<BuildError>) -> (diagnostics: Vec<Diagnostic>)
    ensures
        diagnostics.len() == errors.len(),
        forall|i: int|
            0 <= i < errors.len() ==> is_error_at(
                #[trigger] diagnostics[i],
                errors[i].text(),
                fault_range(
                    match content {
                        Some(text) => Some(text@),
                        None => None,
                    },
                    errors[i],
                ),
            ),
{
    let file = match content {
        Some(text) => Some(rope_from_str(text)),
        None => None,
    };
    let mut errors = errors;
    let ghost all = errors@;
    let mut diagnostics: Vec<Diagnostic> = Vec::new();
    while errors.len() > 0
        invariant
            diagnostics.len() + errors.len() == all.len(),
            errors@ == all.skip(diagnostics.len() as int),
            match (content, file) {
                (Some(text), Some(rope)) => rope_text(rope) == text@,
                (None, None) => true,
                _ => false,
            },
            forall|i: int|
                0 <= i < diagnostics.len() ==> is_error_at(
                    #[trigger] diagnostics[i],
                    all[i].text(),
                    fault_range(
                        match content {
                            Some(text) => Some(text@),
                            None => None,
                        },
                        all[i],
                    ),
                ),
        decreases errors.len(),
    {
        let error = errors.remove(0);
        assert(error == all[diagnostics.len() as int]);
        assert(errors@ =~= all.skip(diagnostics.len() + 1));
        let diagnostic = DiagnosticConverter(&file, error).convert();
        diagnostics.push(diagnostic);
    }
    diagnostics
}

/// What an enforcer knows, as plain values.
pub struct EnforcerState {
    /// The directory of the project.
    pub root: Seq<char>,
    /// The configuration in force: the last one that loaded.
    pub config: Option<Config>,
    /// Why the latest attempt to load the configuration failed, if it did.
    pub failure: Option<String>,
    /// What the cache holds.
    pub cache: Map<Seq<char>, Judgement>,
}

/// The state after an attempt to load the configuration.
///
/// A configuration that loads, and a marker file that is gone, take effect and empty the
/// cache. A failure is recorded, and leaves the configuration in force and the cache as
/// they are: what was found under the configuration in force stays good.
pub open spec fn configured(before: EnforcerState, loaded: Option<Result<Config, String>>) -> EnforcerState {
    match loaded {
        None => EnforcerState { root: before.root, config: None, failure: None, cache: Map::empty() },
        Some(Ok(config)) => EnforcerState { root: before.root, config: Some(config), failure: None,
            cache: Map::empty() },
        Some(Err(reason)) => EnforcerState { root: before.root, config: before.config, failure: Some(reason),
            cache: before.cache },
    }
}

/// Loading the same configuration twice in a row comes to the same as loading it once.
pub proof fn lemma_configure_is_idempotent(before: EnforcerState, loaded: Option<Result<Config, String>>)
    ensures
        configured(configured(before, loaded), loaded) == configured(before, loaded),
{
}

/// Checks the dependencies of one project against the project's policy.
pub struct Enforcer {
    root: String,
    config: Option<Config>,
    failure: Option<String>,
    cache: DefaultCache,
}

impl View for Enforcer {
    type V = EnforcerState;

    closed spec fn view(&self) -> EnforcerState {
        EnforcerState { root: self.root@, config: self.config, failure: self.failure, cache: self.cache.entries() }
    }
}

/// What is to be said against the marker file, given how a trial evaluation of no
/// dependencies ended: why the configuration failed to load, if it did, and then why the
/// engine could not be set up, unless that is the same failure or a fault of the policy
/// source.
pub open spec fn marker_messages(state: EnforcerState, trial: Result<(), Error>) -> Seq<Seq<char>> {
    let first = match state.failure {
        Some(reason) => seq![reason@],
        None => Seq::empty(),
    };
    let second = match trial {
        Ok(_) => Seq::empty(),
        Err(Error::BuildRuntime(_)) => Seq::empty(),
        Err(Error::ParsePolicy(_, _)) => Seq::empty(),
        Err(error) => if error is Configuration && state.failure.is_some() {
            Seq::empty()
        } else {
            seq!["Failed to initialize engine: "@ + error.text()]
        },
    };
    first + second
}

/// The policy source whose faults are to be reported, with the faults, given how a trial
/// evaluation of no dependencies ended: the policy file as the configuration in force names
/// it where no runtime could be built, and the source that the failure names where it does
/// not parse. Either path stands as it is: the configuration holds it resolved.
pub open spec fn policy_faults(state: EnforcerState, trial: Result<(), Error>) -> Option<(Seq<char>, Seq<BuildError>)> {
    match trial {
        Err(Error::BuildRuntime(errors)) => match state.config {
            Some(Config { dependencies: Some(wanted), .. }) => Some((wanted.policy@, errors@)),
            _ => None,
        },
        Err(Error::ParsePolicy(source, errors)) => Some((source@, errors@)),
        _ => None,
    }
}

/// Whether `found` is what is wrong with the configuration of an enforcer, given how a
/// trial evaluation of no dependencies ended: the files to report against, each with its
/// diagnostics.
///
/// What is to be said against the marker file comes first, as one error for each message.
/// The faults of the policy source follow, reported against that source, each at its place.
pub open spec fn is_diagnosis(
    state: EnforcerState,
    trial: Result<(), Error>,
    content: Option<Seq<char>>,
    found: Seq<(String, Vec<Diagnostic>)>,
) -> bool {
    let messages = marker_messages(state, trial);
    let faults = policy_faults(state, trial);
    let first: int = if messages.len() > 0 {
        1
    } else {
        0
    };
    let second: int = if faults.is_some() {
        1
    } else {
        0
    };
    &&& found.len() == first + second
    &&& messages.len() > 0 ==> {
        &&& found[0].0@ == joined(state.root, FILE_NAME_YAML@)
        &&& found[0].1@.len() == messages.len()
        &&& forall|i: int| 0 <= i < messages.len() ==> is_error_at(#[trigger] found[0].1@[i], messages[i],
            Range::origin())
    }
    &&& faults matches Some((file, errors)) ==> {
        &&& found[first].0@ == file
        &&& are_faults(found[first].1@, errors, content)
    }
}

/// Whether `diagnostics` report `errors`, one for one and in order.
pub open spec fn are_faults(diagnostics: Seq<Diagnostic>, errors: Seq<BuildError>, content: Option<Seq<char>>) -> bool {
    &&& diagnostics.len() == errors.len()
    &&& forall|i: int| 0 <= i < errors.len() ==> is_error_at(#[trigger] diagnostics[i], errors[i].text(),
        fault_range(content, errors[i]))
}

impl Enforcer {
    /// An enforcer for the project in `root`, with what an attempt to load the project's
    /// configuration gave.
    pub fn new(root: String, loaded: Option<Result<Config, String>>) -> (enforcer: Self)
        ensures
            enforcer@ == configured(
                EnforcerState { root: root@, config: None, failure: None, cache: Map::empty() },
                loaded,
            ),
    {
        let mut enforcer = Enforcer { root, config: None, failure: None, cache: DefaultCache::default() };
        enforcer.configure(loaded);
        enforcer
    }

    /// Takes what a new attempt to load the configuration gave.
    ///
    /// On success the cache is emptied, so that no result found under the old policy is
    /// handed out under the new one. On failure the configuration in force and the cache
    /// stay, and the failure is kept to be reported.
    pub fn configure(&mut self, loaded: Option<Result<Config, String>>)
        ensures
            final(self)@ == configured(old(self)@, loaded),
    {
        match loaded {
            None => {
                self.config = None;
                self.failure = None;
                self.cache.invalidate();
            },
            Some(Ok(config)) => {
                self.config = Some(config);
                self.failure = None;
                self.cache.invalidate();
            },
            Some(Err(reason)) => {
                self.failure = Some(reason);
            },
        }
    }

    /// The directory of the project.
    pub fn root(&self) -> (root: &str)
        ensures
            root@ == self@.root,
    {
        self.root.as_str()
    }

    /// The configuration in force.
    pub fn config(&self) -> (config: &Option<Config>)
        ensures
            *config == self@.config,
    {
        &self.config
    }

    /// Why the configuration failed to load, if it did.
    pub fn failure(&self) -> (failure: &Option<String>)
        ensures
            *failure == self@.failure,
    {
        &self.failure
    }

    /// The cache, to consult.
    pub fn cache(&self) -> (cache: &DefaultCache)
        ensures
            cache.entries() == self@.cache,
    {
        &self.cache
    }

    /// The cache, to fill. The rest of the enforcer stays as it is.
    pub fn cache_mut(&mut self) -> (cache: &mut DefaultCache)
        ensures
            cache.entries() == old(self)@.cache,
            final(self)@ == (EnforcerState { cache: final(cache).entries(), ..old(self)@ }),
    {
        &mut self.cache
    }

    /// Starts an evaluation of `dependencies` under the configuration of this enforcer,
    /// with the cache of this enforcer to consult.
    pub fn eval(&self, dependencies: Vec<Dependency>) -> (started: (Evaluation, Turn))
        ensures
            started.0.wf(),
            started.0.pending() == purls(dependencies@),
            crate::enforcer::runner::begun(
                self@.config,
                self@.failure,
                self@.cache,
                dependencies@,
                started.0,
                started.1,
            ),
    {
        Evaluation::begin(&self.config, &self.failure, &self.cache, dependencies)
    }

    /// The file whose text places the faults of `error`, if it is a failure of the policy
    /// source: the path as the configuration or the failure holds it.
    pub fn policy_file(&self, error: &Error) -> (file: Option<String>)
        ensures
            match error {
                Error::BuildRuntime(_) => match self@.config {
                    Some(Config { dependencies: Some(wanted), .. }) => file == Some(wanted.policy),
                    _ => file.is_none(),
                },
                Error::ParsePolicy(source, _) => file == Some(*source),
                _ => file.is_none(),
            },
    {
        match error {
            Error::BuildRuntime(_) => match &self.config {
                Some(config) => match &config.dependencies {
                    Some(wanted) => Some(wanted.policy.clone()),
                    None => None,
                },
                None => None,
            },
            Error::ParsePolicy(source, _) => Some(source.clone()),
            _ => None,
        }
    }

    /// What is wrong with the configuration of this enforcer.
    ///
    /// `trial` is how an evaluation of no dependencies ended, and `content` the text of the
    /// policy source that the failure points to, where it could be read.
    pub fn diagnostics(&self, trial: Result<(), Error>, content: Option<&str>) -> (found: Vec<(String,
        Vec<Diagnostic>)>)
        ensures
            is_diagnosis(
                self@,
                trial,
                match content {
                    Some(text) => Some(text@),
                    None => None,
                },
                found@,
            ),
    {
        let mut found: Vec<(String, Vec<Diagnostic>)> = Vec::new();
        let mut against_marker: Vec<Diagnostic> = Vec::new();
        let mut against_policy: Option<(String, Vec<Diagnostic>)> = None;
        match &self.failure {
            Some(reason) => {
                against_marker.push(Diagnostic::plain(DiagnosticSeverity::Error, reason.clone()));
            },
            None => {},
        }
        match trial {
            Ok(_) => {},
            Err(Error::BuildRuntime(errors)) => {
                match &self.config {
                    Some(config) => match &config.dependencies {
                        Some(wanted) => {
                            let file = wanted.policy.clone();
                            against_policy = Some((file, diag_from_build_errors(content, errors)));
                        },
                        None => {},
                    },
                    None => {},
                }
            },
            Err(Error::ParsePolicy(source, errors)) => {
                let file = source;
                against_policy = Some((file, diag_from_build_errors(content, errors)));
            },
            Err(other) => {
                let same = match &other {
                    Error::Configuration(_) => self.failure.is_some(),
                    _ => false,
                };
                if !same {
                    let mut message = String::from_str("Failed to initialize engine: ");
                    let reason = other.to_text();
                    message.append(reason.as_str());
                    against_marker.push(Diagnostic::plain(DiagnosticSeverity::Error, message));
                }
            },
        }
        assert(against_marker@.len() == marker_messages(self@, trial).len());
        if against_marker.len() > 0 {
            found.push((join(self.root.as_str(), FILE_NAME_YAML), against_marker));
        }
        match against_policy {
            Some(entry) => found.push(entry),
            None => {},
        }
        found
    }
}

} // verus!
