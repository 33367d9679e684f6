//! One evaluation of a list of dependencies, step by step.
//!
//! The policy engine lives outside and answers asynchronously. An [`Evaluation`] decides
//! what to ask of it next: it consults the cache, asks for the runtime to be built, asks for
//! one dependency at a time to be evaluated, and collects the results.

use crate::config::Config;
use crate::enforcer::cache::Cache;
use crate::enforcer::dependency::{purls, Dependency};
use crate::enforcer::error::Error;
use crate::enforcer::outcome::{judged, Judgement, Outcome, Response};
use crate::utils::progress::{notes_of, Note, ProgressNote};
use vstd::prelude::*;

verus! {

/// The package under which the policy source is loaded.
pub const DEFAULT_PACKAGE: &'static str = "enforcer";

/// What has to happen outside before the evaluation can go on.
#[derive(Debug)]
pub enum Request {
    /// Read the policy source in this file and build a runtime from it.
    BuildRuntime { policy: String },
    /// Evaluate this rule against this dependency.
    Evaluate { rule: String, dependency: Dependency },
    /// Nothing more: the evaluation has ended with this result.
    Finish(Result<Vec<(Dependency, Outcome)>, Error>),
}

/// What an evaluation wants done after a step: progress to report, then a request.
#[derive(Debug)]
pub struct Turn {
    pub notes: Vec<ProgressNote>,
    pub request: Request,
}

/// How far an evaluation has come.
#[derive(Copy, Clone, Debug, PartialEq, Eq, Structural)]
pub enum Stage {
    /// It waits for the runtime to be built.
    Building,
    /// It waits for the engine's answer on one dependency.
    Evaluating,
    /// It has ended.
    Finished,
}

/// What a list of results looks like to a reader: package URL and result.
pub open spec fn results_of(list: Seq<(Dependency, Outcome)>) -> Seq<(Seq<char>, Judgement)> {
    Seq::new(list.len(), |i: int| (list[i].0@, list[i].1@))
}

/// Every dependency with the result "satisfied".
pub open spec fn all_satisfied(pending: Seq<Seq<char>>) -> Seq<(Seq<char>, Judgement)> {
    Seq::new(pending.len(), |i: int| (pending[i], Judgement::Satisfied))
}

/// The first dependency at or after `from` that the cache does not hold, or the length of
/// the list where it holds them all.
pub open spec fn next_miss(cache: Map<Seq<char>, Judgement>, pending: Seq<Seq<char>>, from: int) -> int
    decreases pending.len() - from,
{
    if from < 0 || from >= pending.len() {
        pending.len() as int
    } else if cache.contains_key(pending[from]) {
        next_miss(cache, pending, from + 1)
    } else {
        from
    }
}

/// The results that the cache holds for the dependencies from `from` up to `to`.
pub open spec fn hits(cache: Map<Seq<char>, Judgement>, pending: Seq<Seq<char>>, from: int,
    to: int) -> Seq<(Seq<char>, Judgement)> {
    Seq::new((to - from) as nat, |k: int| (pending[from + k], cache[pending[from + k]]))
}

/// One update for each dependency from `from` up to `to`: its package URL, and one item done.
pub open spec fn visits(pending: Seq<Seq<char>>, from: int, to: int) -> Seq<Note> {
    Seq::new((to - from) as nat, |k: int| Note::Update { message: Some(pending[from + k]), increment: Some(1nat) })
}

/// The rule to evaluate: the package of the policy, two colons, and the required rule.
pub open spec fn rule_name(requires: Seq<char>) -> Seq<char> {
    DEFAULT_PACKAGE@ + "::"@ + requires
}

/// The number of items of an evaluation: one for each dependency and one for the setup.
pub open spec fn total_items(count: nat) -> nat {
    if count < usize::MAX {
        count + 1
    } else {
        count
    }
}

/// Whether the cache holds every dependency of a list that is not empty.
pub open spec fn all_cached(cache: Map<Seq<char>, Judgement>, pending: Seq<Seq<char>>) -> bool {
    pending.len() > 0 && next_miss(cache, pending, 0) == pending.len()
}

/// Up to the next miss, every dependency is in the cache.
pub proof fn lemma_next_miss(cache: Map<Seq<char>, Judgement>, pending: Seq<Seq<char>>, from: int)
    requires
        0 <= from <= pending.len(),
    ensures
        from <= next_miss(cache, pending, from) <= pending.len(),
        forall|k: int| from <= k < next_miss(cache, pending, from) ==> cache.contains_key(#[trigger] pending[k]),
        next_miss(cache, pending, from) < pending.len() ==> !cache.contains_key(pending[next_miss(cache, pending,
            from)]),
    decreases pending.len() - from,
{
    if from < pending.len() && cache.contains_key(pending[from]) {
        lemma_next_miss(cache, pending, from + 1);
    }
}

/// An evaluation of a list of dependencies that is under way.
pub struct Evaluation {
    rule: String,
    pending: Vec<Dependency>,
    next: usize,
    outcomes: Vec<(Dependency, Outcome)>,
    stage: Stage,
}

impl Evaluation {
    /// The dependencies to evaluate, by package URL.
    pub closed spec fn pending(&self) -> Seq<Seq<char>> {
        purls(self.pending@)
    }

    /// The number of dependencies that have their result.
    pub closed spec fn position(&self) -> int {
        self.next as int
    }

    /// The results so far, in the order of the dependencies.
    pub closed spec fn settled(&self) -> Seq<(Seq<char>, Judgement)> {
        results_of(self.outcomes@)
    }

    /// How far the evaluation has come.
    pub closed spec fn stage(&self) -> Stage {
        self.stage
    }

    /// The rule that each dependency has to satisfy.
    pub closed spec fn rule(&self) -> Seq<char> {
        self.rule@
    }

    /// The results so far are those of the first dependencies, and an evaluation that waits
    /// for an answer waits for the next dependency.
    pub closed spec fn wf(&self) -> bool {
        &&& self.next <= self.pending.len()
        &&& self.stage != Stage::Finished ==> self.outcomes.len() == self.next
        &&& self.stage == Stage::Building ==> self.next == 0
        &&& self.stage == Stage::Evaluating ==> self.next < self.pending.len()
    }

    /// Goes on from the next dependency: takes every result that the cache holds, and stops
    /// at the first dependency that it does not hold, or at the end.
    fn advance<C: Cache>(&mut self, cache: &C) -> (turn: Turn)
        requires
            old(self).next <= old(self).pending.len(),
            old(self).outcomes.len() == old(self).next,
        ensures
            final(self).wf(),
            final(self).pending() == old(self).pending(),
            final(self).rule() == old(self).rule(),
            ({
                let pending = old(self).pending();
                let from = old(self).position();
                let stop = next_miss(cache.entries(), pending, from);
                if stop < pending.len() {
                    &&& notes_of(turn.notes@) == visits(pending, from, stop + 1)
                    &&& final(self).stage() == Stage::Evaluating
                    &&& final(self).position() == stop
                    &&& final(self).settled() == old(self).settled() + hits(cache.entries(), pending, from, stop)
                    &&& match turn.request {
                        Request::Evaluate { rule, dependency } => rule@ == old(self).rule() && dependency@
                            == pending[stop],
                        _ => false,
                    }
                } else {
                    &&& notes_of(turn.notes@) == visits(pending, from, stop)
                    &&& final(self).stage() == Stage::Finished
                    &&& match turn.request {
                        Request::Finish(Ok(list)) => results_of(list@) == old(self).settled() + hits(
                            cache.entries(),
                            pending,
                            from,
                            stop,
                        ),
                        _ => false,
                    }
                }
            }),
    {
        let ghost pending = self.pending();
        let ghost from = self.position();
        let ghost entries = cache.entries();
        let ghost before = self.settled();
        let mut notes: Vec<ProgressNote> = Vec::new();
        proof {
            lemma_next_miss(entries, pending, from);
        }
        while self.next < self.pending.len()
            invariant
                self.next <= self.pending.len(),
                self.outcomes.len() == self.next,
                self.pending@ == old(self).pending@,
                self.rule == old(self).rule,
                pending == purls(self.pending@),
                pending == old(self).pending(),
                from == old(self).position(),
                before == old(self).settled(),
                entries == cache.entries(),
                0 <= from <= self.next <= next_miss(entries, pending, from) <= pending.len(),
                forall|k: int| from <= k < next_miss(entries, pending, from)
                    ==> entries.contains_key(#[trigger] pending[k]),
                next_miss(entries, pending, from) < pending.len()
                    ==> !entries.contains_key(pending[next_miss(entries, pending, from)]),
                notes_of(notes@) == visits(pending, from, self.next as int),
                results_of(self.outcomes@) == before + hits(entries, pending, from, self.next as int),
            decreases self.pending.len() - self.next,
        {
            let ghost at = self.next as int;
            let ghost stop = next_miss(entries, pending, from);
            let ghost told = notes@;
            let ghost kept = self.outcomes@;
            assert(pending[at] == self.pending@[at]@);
            let note = ProgressNote::Update { message: Some(self.pending[self.next].to_text()), increment: Some(1) };
            assert(note@ == Note::Update { message: Some(pending[at]), increment: Some(1nat) });
            notes.push(note);
            assert(notes_of(notes@) =~= notes_of(told).push(note@));
            assert(visits(pending, from, at + 1) =~= visits(pending, from, at).push(note@));
            match cache.get(&self.pending[self.next]) {
                Some(outcome) => {
                    assert(at < stop);
                    self.outcomes.push((self.pending[self.next].clone(), outcome));
                    self.next = self.next + 1;
                    assert(results_of(self.outcomes@) =~= results_of(kept).push((pending[at], entries[pending[at]])));
                    assert(hits(entries, pending, from, at + 1) =~= hits(entries, pending, from, at).push(
                        (pending[at], entries[pending[at]]),
                    ));
                    assert(results_of(self.outcomes@) =~= before + hits(entries, pending, from, at + 1));
                },
                None => {
                    assert(at == stop);
                    self.stage = Stage::Evaluating;
                    return Turn {
                        notes,
                        request: Request::Evaluate { rule: self.rule.clone(),
                            dependency: self.pending[self.next].clone() },
                    };
                },
            }
        }
        self.stage = Stage::Finished;
        let mut list: Vec<(Dependency, Outcome)> = Vec::new();
        core::mem::swap(&mut list, &mut self.outcomes);
        Turn { notes, request: Request::Finish(Ok(list)) }
    }

    /// Starts an evaluation of `dependencies` under the configuration in force, `failure`
    /// being why the latest attempt to load the configuration failed, if it did.
    ///
    /// Where no configuration is in force because none could be loaded, the evaluation
    /// fails as a whole. Where there is no configuration, or one without a policy for
    /// dependencies, every dependency is satisfied and the engine is not asked anything.
    /// With a policy, a list of dependencies that the cache holds one and all ends at once
    /// with what the cache holds: nothing is built and nothing evaluated. Else the runtime
    /// has to be built first, also for an empty list, which serves to try the policy.
    pub fn begin<C: Cache>(
        config: &Option<Config>,
        failure: &Option<String>,
        cache: &C,
        dependencies: Vec<Dependency>,
    ) -> (started: (Evaluation, Turn))
        ensures
            started.0.wf(),
            started.0.pending() == purls(dependencies@),
            begun(*config, *failure, cache.entries(), dependencies@, started.0, started.1),
    {
        let ghost pending = purls(dependencies@);
        let count = dependencies.len();
        let mut run = Evaluation {
            rule: String::new(),
            pending: dependencies,
            next: 0,
            outcomes: Vec::new(),
            stage: Stage::Finished,
        };
        assert(results_of(run.outcomes@) =~= Seq::empty());
        let config = match config {
            Some(config) => config,
            None => {
                let request = match failure {
                    Some(reason) => Request::Finish(Err(Error::Configuration(reason.clone()))),
                    None => Request::Finish(Ok(all_ok(&run.pending))),
                };
                return (run, Turn { notes: Vec::new(), request });
            },
        };
        let total = if count < usize::MAX {
            count + 1
        } else {
            count
        };
        let mut notes: Vec<ProgressNote> = Vec::new();
        notes.push(ProgressNote::Start { title: String::from_str("Scanning dependencies"), total });
        let wanted = match &config.dependencies {
            Some(wanted) => wanted,
            None => {
                let list = all_ok(&run.pending);
                assert(notes_of(notes@) =~= seq![opening(pending.len())]);
                return (run, Turn { notes, request: Request::Finish(Ok(list)) });
            },
        };
        let mut rule = String::from_str(DEFAULT_PACKAGE);
        rule.append("::");
        rule.append(wanted.requires.as_str());
        run.rule = rule;
        if count > 0 && holds_all(cache, &run.pending) {
            let ghost heading = notes_of(notes@);
            assert(heading =~= seq![opening(pending.len())]);
            let Turn { notes: mut told, request } = run.advance(cache);
            let ghost visited = notes_of(told@);
            notes.append(&mut told);
            assert(notes_of(notes@) =~= heading + visited);
            assert(Seq::<(Seq<char>, Judgement)>::empty() + hits(cache.entries(), pending, 0, pending.len() as int)
                =~= hits(cache.entries(), pending, 0, pending.len() as int));
            return (run, Turn { notes, request });
        }
        notes.push(ProgressNote::Update { message: Some(String::from_str("Building world")), increment: None });
        assert(notes_of(notes@) =~= seq![opening(pending.len()), building()]);
        run.stage = Stage::Building;
        (run, Turn { notes, request: Request::BuildRuntime { policy: wanted.policy.clone() } })
    }

    /// Goes on after the attempt to build the runtime.
    ///
    /// A failure ends the evaluation with that failure. After a success the dependencies
    /// are taken in order: each one that the cache holds gets the result kept there, and the
    /// first one that it does not hold is handed to the engine.
    pub fn built<C: Cache>(&mut self, cache: &C, reply: Result<(), Error>) -> (turn: Turn)
        requires
            old(self).wf(),
            old(self).stage() == Stage::Building,
        ensures
            final(self).wf(),
            final(self).pending() == old(self).pending(),
            final(self).rule() == old(self).rule(),
            match reply {
                Err(error) => {
                    &&& final(self).stage() == Stage::Finished
                    &&& turn.notes@.len() == 0
                    &&& turn.request == Request::Finish(Err(error))
                },
                Ok(_) => continued(*old(self), cache.entries(), old(self).position(), old(self).settled(), turn,
                    *final(self)),
            },
    {
        match reply {
            Err(error) => {
                self.stage = Stage::Finished;
                Turn { notes: Vec::new(), request: Request::Finish(Err(error)) }
            },
            Ok(_) => self.advance(cache),
        }
    }

    /// Goes on after the engine's answer on the dependency that was handed to it.
    ///
    /// A failure ends the evaluation with that failure: no partial result is returned. An
    /// answer becomes the result of the dependency, and is handed to the cache; then the
    /// remaining dependencies are taken as after the build.
    pub fn evaluated<C: Cache>(&mut self, cache: &mut C, reply: Result<Response, Error>) -> (turn: Turn)
        requires
            old(self).wf(),
            old(self).stage() == Stage::Evaluating,
        ensures
            final(self).wf(),
            final(self).pending() == old(self).pending(),
            final(self).rule() == old(self).rule(),
            final(cache).keeps() == old(cache).keeps(),
            match reply {
                Err(error) => {
                    &&& final(self).stage() == Stage::Finished
                    &&& turn.notes@.len() == 0
                    &&& turn.request == Request::Finish(Err(error))
                    &&& final(cache).entries() == old(cache).entries()
                },
                Ok(response) => {
                    let at = old(self).position();
                    let result = judged(response.satisfied, response.rationale@);
                    &&& final(cache).entries() == (if old(cache).keeps() {
                        old(cache).entries().insert(old(self).pending()[at], result)
                    } else {
                        old(cache).entries()
                    })
                    &&& continued(
                        *old(self),
                        final(cache).entries(),
                        at + 1,
                        old(self).settled().push((old(self).pending()[at], result)),
                        turn,
                        *final(self),
                    )
                },
            },
    {
        match reply {
            Err(error) => {
                self.stage = Stage::Finished;
                Turn { notes: Vec::new(), request: Request::Finish(Err(error)) }
            },
            Ok(response) => {
                let ghost kept = self.outcomes@;
                let ghost at = self.next as int;
                let outcome = response.into_outcome();
                cache.store(&self.pending[self.next], outcome.clone());
                self.outcomes.push((self.pending[self.next].clone(), outcome));
                self.next = self.next + 1;
                assert(results_of(self.outcomes@) =~= results_of(kept).push((self.pending()[at], outcome@)));
                self.advance(cache)
            },
        }
    }
}

/// Whether `run` and `turn` are how an evaluation of `dependencies` starts under a
/// configuration.
///
/// `config` is the configuration in force, and `failure` says why the latest attempt to
/// load the configuration failed, if it did. A configuration that loaded before stays in
/// force when a later attempt fails.
///
/// Where nothing is in force because the configuration failed to load, the evaluation ends
/// at once with that failure. Without a configuration, every dependency is satisfied and
/// nothing is reported; with one that holds no policy for dependencies, the start is
/// reported and every dependency is satisfied.
///
/// With a policy, a list whose dependencies the cache holds one and all ends at once: the
/// start and each dependency are reported, the results are those that the cache holds, and
/// nothing is built. Any other list, the empty one too, starts at its first dependency
/// with no result yet: the start and the build are reported, and the runtime is to be built
/// from the policy file.
pub open spec fn begun(
    config: Option<Config>,
    failure: Option<String>,
    cache: Map<Seq<char>, Judgement>,
    dependencies: Seq<Dependency>,
    run: Evaluation,
    turn: Turn,
) -> bool {
    match (config, failure) {
        (None, Some(reason)) => {
            &&& run.stage() == Stage::Finished
            &&& turn.notes@.len() == 0
            &&& match turn.request {
                Request::Finish(Err(Error::Configuration(said))) => said == reason,
                _ => false,
            }
        },
        (None, None) => {
            &&& run.stage() == Stage::Finished
            &&& turn.notes@.len() == 0
            &&& match turn.request {
                Request::Finish(Ok(list)) => results_of(list@) == all_satisfied(purls(dependencies)),
                _ => false,
            }
        },
        (Some(Config { dependencies: None, .. }), _) => {
            &&& run.stage() == Stage::Finished
            &&& notes_of(turn.notes@) == seq![opening(dependencies.len())]
            &&& match turn.request {
                Request::Finish(Ok(list)) => results_of(list@) == all_satisfied(purls(dependencies)),
                _ => false,
            }
        },
        (Some(Config { dependencies: Some(wanted), .. }), _) => if all_cached(cache, purls(dependencies)) {
            &&& run.stage() == Stage::Finished
            &&& notes_of(turn.notes@) == seq![opening(dependencies.len())] + visits(
                purls(dependencies),
                0,
                dependencies.len() as int,
            )
            &&& match turn.request {
                Request::Finish(Ok(list)) => results_of(list@) == hits(
                    cache,
                    purls(dependencies),
                    0,
                    dependencies.len() as int,
                ),
                _ => false,
            }
        } else {
            &&& run.stage() == Stage::Building
            &&& run.rule() == rule_name(wanted.requires@)
            &&& run.position() == 0
            &&& run.settled() == Seq::<(Seq<char>, Judgement)>::empty()
            &&& notes_of(turn.notes@) == seq![opening(dependencies.len()), building()]
            &&& match turn.request {
                Request::BuildRuntime { policy } => policy == wanted.policy,
                _ => false,
            }
        },
    }
}

/// The note that opens an evaluation of `count` dependencies.
pub open spec fn opening(count: nat) -> Note {
    Note::Start { title: "Scanning dependencies"@, total: total_items(count) }
}

/// The note that says that the runtime is being built.
pub open spec fn building() -> Note {
    Note::Update { message: Some("Building world"@), increment: None }
}

/// Whether `after` and `turn` are what comes of `before` when it goes on from the
/// dependency at `from`, with `settled` as the results so far and `cache` to consult.
///
/// Every dependency from `from` up to the next miss gets the result that the cache holds,
/// and is reported as done. At a miss, that dependency is reported and handed to the
/// engine; at the end, the results are handed out.
pub open spec fn continued(
    before: Evaluation,
    cache: Map<Seq<char>, Judgement>,
    from: int,
    settled: Seq<(Seq<char>, Judgement)>,
    turn: Turn,
    after: Evaluation,
) -> bool {
    let pending = before.pending();
    let stop = next_miss(cache, pending, from);
    if stop < pending.len() {
        &&& notes_of(turn.notes@) == visits(pending, from, stop + 1)
        &&& after.stage() == Stage::Evaluating
        &&& after.position() == stop
        &&& after.settled() == settled + hits(cache, pending, from, stop)
        &&& match turn.request {
            Request::Evaluate { rule, dependency } => rule@ == before.rule() && dependency@ == pending[stop],
            _ => false,
        }
    } else {
        &&& notes_of(turn.notes@) == visits(pending, from, stop)
        &&& after.stage() == Stage::Finished
        &&& match turn.request {
            Request::Finish(Ok(list)) => results_of(list@) == settled + hits(cache, pending, from, stop),
            _ => false,
        }
    }
}

/// Whether the cache holds every dependency of the list.
fn holds_all<C: Cache>(cache: &C, pending: &Vec<Dependency>) -> (all: bool)
    ensures
        all == (next_miss(cache.entries(), purls(pending@), 0) == pending.len()),
{
    let ghost entries = cache.entries();
    let ghost list = purls(pending@);
    let mut i: usize = 0;
    while i < pending.len()
        invariant
            i <= pending.len(),
            entries == cache.entries(),
            list == purls(pending@),
            next_miss(entries, list, 0) == next_miss(entries, list, i as int),
        decreases pending.len() - i,
    {
        match cache.get(&pending[i]) {
            Some(_) => {},
            None => {
                return false;
            },
        }
        i += 1;
    }
    true
}

/// Every dependency of the list with the result "satisfied".
fn all_ok(dependencies: &Vec<Dependency>) -> (list: Vec<(Dependency, Outcome)>)
    ensures
        results_of(list@) == all_satisfied(purls(dependencies@)),
{
    let mut list: Vec<(Dependency, Outcome)> = Vec::new();
    let mut i: usize = 0;
    while i < dependencies.len()
        invariant
            i <= dependencies.len(),
            list.len() == i,
            forall|k: int| 0 <= k < i ==> (#[trigger] list[k]).0@ == dependencies[k]@ && list[k].1
                == Outcome::Satisfied,
        decreases dependencies.len() - i,
    {
        list.push((dependencies[i].clone(), Outcome::Satisfied));
        i += 1;
    }
    assert(results_of(list@) =~= all_satisfied(purls(dependencies@)));
    list
}

} // verus!
