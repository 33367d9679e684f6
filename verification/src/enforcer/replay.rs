//! A whole evaluation against answers that are already at hand.
//!
//! The answers of the engine are given as a list, in the order in which they would be
//! asked for. This states what an evaluation comes to for every possible behaviour of the
//! engine, and counts how often the engine is consulted.

use crate::config::Config;
use crate::enforcer::cache::Cache;
use crate::enforcer::dependency::{purls, Dependency};
use crate::enforcer::error::Error;
use crate::enforcer::outcome::{judged, Judgement, Outcome, Response};
use crate::enforcer::runner::{
    all_cached, all_satisfied, building, hits, lemma_next_miss, next_miss, opening, results_of, visits,
    Evaluation, Request, Stage, Turn,
};
use crate::utils::progress::{notes_of, ProgressNote};
use vstd::prelude::*;

verus! {

/// What an evaluation came to.
pub struct Run {
    /// The results, or the failure; nothing where the answers ran out before the end.
    pub result: Option<Result<Seq<(Seq<char>, Judgement)>, Error>>,
    /// What the cache holds afterwards.
    pub cache: Map<Seq<char>, Judgement>,
    /// How many answers of the engine were used.
    pub used: nat,
}

/// What an answer of the engine says of a dependency.
pub open spec fn verdict(response: Response) -> Judgement {
    judged(response.satisfied, response.rationale@)
}

/// The evaluation of the dependencies from `from` on, with `settled` as the results so far.
///
/// A dependency that the cache holds gets the result kept there, and uses no answer. Any
/// other uses the next answer: a failure ends the evaluation; a verdict becomes the
/// dependency's result and, where the cache keeps what it is given, is kept for later.
pub open spec fn evaluate_all(
    keeps: bool,
    cache: Map<Seq<char>, Judgement>,
    pending: Seq<Seq<char>>,
    from: int,
    settled: Seq<(Seq<char>, Judgement)>,
    replies: Seq<Result<Response, Error>>,
    used: nat,
) -> Run
    decreases pending.len() - from,
{
    if from < 0 || from >= pending.len() {
        Run { result: Some(Ok(settled)), cache, used }
    } else if cache.contains_key(pending[from]) {
        evaluate_all(keeps, cache, pending, from + 1, settled.push((pending[from], cache[pending[from]])), replies,
            used)
    } else if used >= replies.len() {
        Run { result: None, cache, used }
    } else {
        match replies[used as int] {
            Err(error) => Run { result: Some(Err(error)), cache, used: used + 1 },
            Ok(response) => evaluate_all(
                keeps,
                if keeps {
                    cache.insert(pending[from], verdict(response))
                } else {
                    cache
                },
                pending,
                from + 1,
                settled.push((pending[from], verdict(response))),
                replies,
                used + 1,
            ),
        }
    }
}

/// What an evaluation of `pending` comes to under a configuration, given what the build
/// of the runtime and the engine answer.
///
/// `config` is the configuration in force, and `failure` says why the latest attempt to
/// load the configuration failed, if it did. Where nothing is in force because the
/// configuration failed to load, the evaluation fails. Without a policy for dependencies
/// every dependency is satisfied and nothing is asked of the engine. With a policy, a list
/// that the cache holds one and all comes to what the cache holds, whatever the build or
/// the engine would say. For any other list the runtime is built: a build that fails ends
/// the evaluation with that failure.
pub open spec fn evaluation(
    config: Option<Config>,
    failure: Option<String>,
    keeps: bool,
    cache: Map<Seq<char>, Judgement>,
    pending: Seq<Seq<char>>,
    built: Result<(), Error>,
    replies: Seq<Result<Response, Error>>,
) -> Run {
    match (config, failure) {
        (None, Some(reason)) => Run { result: Some(Err(Error::Configuration(reason))), cache, used: 0 },
        (None, None) => Run { result: Some(Ok(all_satisfied(pending))), cache, used: 0 },
        (Some(Config { dependencies: None, .. }), _) => Run { result: Some(Ok(all_satisfied(pending))), cache,
            used: 0 },
        (Some(Config { dependencies: Some(_), .. }), _) => if all_cached(cache, pending) {
            Run { result: Some(Ok(hits(cache, pending, 0, pending.len() as int))), cache, used: 0 }
        } else {
            match built {
                Err(error) => Run { result: Some(Err(error)), cache, used: 0 },
                Ok(_) => evaluate_all(keeps, cache, pending, 0, Seq::empty(), replies, 0),
            }
        },
    }
}

/// How often an evaluation asks for the runtime to be built: once where a policy is in
/// force and the list is empty or holds a dependency that the cache does not hold, and
/// never else.
pub open spec fn builds(config: Option<Config>, cache: Map<Seq<char>, Judgement>, pending: Seq<Seq<char>>) -> nat {
    if has_policy(config) && !all_cached(cache, pending) {
        1
    } else {
        0
    }
}

/// Taking the results that the cache holds, up to the next miss, does not use an answer.
pub proof fn lemma_hits_use_no_answer(
    keeps: bool,
    cache: Map<Seq<char>, Judgement>,
    pending: Seq<Seq<char>>,
    from: int,
    settled: Seq<(Seq<char>, Judgement)>,
    replies: Seq<Result<Response, Error>>,
    used: nat,
)
    requires
        0 <= from <= pending.len(),
    ensures
        evaluate_all(keeps, cache, pending, from, settled, replies, used) == evaluate_all(
            keeps,
            cache,
            pending,
            next_miss(cache, pending, from),
            settled + hits(cache, pending, from, next_miss(cache, pending, from)),
            replies,
            used,
        ),
    decreases pending.len() - from,
{
    lemma_next_miss(cache, pending, from);
    let stop = next_miss(cache, pending, from);
    if from < pending.len() && cache.contains_key(pending[from]) {
        let more = settled.push((pending[from], cache[pending[from]]));
        lemma_hits_use_no_answer(keeps, cache, pending, from + 1, more, replies, used);
        assert(more + hits(cache, pending, from + 1, stop) =~= settled + hits(cache, pending, from, stop));
    } else {
        assert(settled + hits(cache, pending, from, stop) =~= settled);
    }
}

/// What a replayed evaluation came to.
#[derive(Debug)]
pub struct Replayed {
    /// The results, or the failure; nothing where the answers ran out before the end.
    pub result: Option<Result<Vec<(Dependency, Outcome)>, Error>>,
    /// The progress that was reported, in order.
    pub notes: Vec<ProgressNote>,
    /// How many answers of the engine were used.
    pub evaluations: usize,
    /// How often the runtime was asked to be built.
    pub builds: usize,
}

/// Whether what came out is what the evaluation comes to.
pub open spec fn agrees(
    found: Option<Result<Vec<(Dependency, Outcome)>, Error>>,
    expected: Option<Result<Seq<(Seq<char>, Judgement)>, Error>>,
) -> bool {
    match (found, expected) {
        (None, None) => true,
        (Some(Err(error)), Some(Err(failure))) => error == failure,
        (Some(Ok(list)), Some(Ok(results))) => results_of(list@) == results,
        _ => false,
    }
}

/// Whether the configuration in force holds a policy for dependencies.
pub open spec fn has_policy(config: Option<Config>) -> bool {
    config matches Some(Config { dependencies: Some(_), .. })
}

/// Updates for consecutive stretches of dependencies make up the updates for the whole.
pub proof fn lemma_visits_join(pending: Seq<Seq<char>>, from: int, middle: int, to: int)
    requires
        from <= middle <= to,
    ensures
        visits(pending, from, middle) + visits(pending, middle, to) == visits(pending, from, to),
{
    assert(visits(pending, from, middle) + visits(pending, middle, to) =~= visits(pending, from, to));
}

/// Runs a whole evaluation of `dependencies`, with `built` as the outcome of building the
/// runtime and `replies` as the engine's answers, in the order in which they are asked for.
///
/// The result, the cache afterwards and the number of answers used are those of
/// [`evaluation`], and the runtime is asked for as often as [`builds`] says. Where the
/// evaluation runs through with a policy, the progress reported is the opening with the
/// number of items, the note on the build where there was one, and one update for each
/// dependency, in order.
pub fn replay<C: Cache>(
    config: &Option<Config>,
    failure: &Option<String>,
    cache: &mut C,
    dependencies: Vec<Dependency>,
    built: Result<(), Error>,
    replies: Vec<Result<Response, Error>>,
) -> (done: Replayed)
    ensures
        final(cache).keeps() == old(cache).keeps(),
        ({
            let expected = evaluation(
                *config,
                *failure,
                old(cache).keeps(),
                old(cache).entries(),
                purls(dependencies@),
                built,
                replies@,
            );
            &&& agrees(done.result, expected.result)
            &&& final(cache).entries() == expected.cache
            &&& done.evaluations == expected.used
            &&& done.builds == builds(*config, old(cache).entries(), purls(dependencies@))
            &&& (has_policy(*config) && done.result matches Some(Ok(_))) ==> notes_of(done.notes@) == (if all_cached(
                old(cache).entries(),
                purls(dependencies@),
            ) {
                seq![opening(dependencies@.len())]
            } else {
                seq![opening(dependencies@.len()), building()]
            }) + visits(purls(dependencies@), 0, dependencies@.len() as int)
        }),
{
    let ghost pending = purls(dependencies@);
    let ghost keeps = cache.keeps();
    let ghost start = cache.entries();
    let ghost script = replies@;
    let ghost heading = seq![opening(dependencies@.len()), building()];
    let ghost goal = evaluation(*config, *failure, keeps, start, pending, built, script);
    let (mut run, first) = Evaluation::begin(config, failure, &*cache, dependencies);
    let Turn { notes: mut notes, request } = first;
    let mut turn = match request {
        Request::Finish(result) => {
            return Replayed { result: Some(result), notes, evaluations: 0, builds: 0 };
        },
        Request::Evaluate { .. } => {
            return Replayed { result: None, notes, evaluations: 0, builds: 0 };
        },
        Request::BuildRuntime { .. } => run.built(cache, built),
    };
    proof {
        lemma_hits_use_no_answer(keeps, start, pending, 0, Seq::empty(), script, 0);
        lemma_next_miss(start, pending, 0);
        assert(notes_of(notes@) =~= heading);
        assert(Seq::<(Seq<char>, Judgement)>::empty() + hits(start, pending, 0, next_miss(start, pending, 0)) =~= hits(
            start,
            pending,
            0,
            next_miss(start, pending, 0),
        ));
    }
    let mut remaining = replies;
    let mut used: usize = 0;
    assert(script.len() == remaining.len());
    loop
        invariant
            keeps == old(cache).keeps(),
            start == old(cache).entries(),
            script == replies@,
            pending == purls(dependencies@),
            run.wf(),
            run.pending() == pending,
            pending.len() == dependencies@.len(),
            cache.keeps() == keeps,
            has_policy(*config),
            !all_cached(start, pending),
            heading == seq![opening(dependencies@.len()), building()],
            goal == evaluation(*config, *failure, keeps, start, pending, built, script),
            used <= script.len() <= usize::MAX,
            remaining@ == script.skip(used as int),
            match turn.request {
                Request::Evaluate { .. } => {
                    let at = run.position();
                    &&& run.stage() == Stage::Evaluating
                    &&& 0 <= at < pending.len()
                    &&& !cache.entries().contains_key(pending[at])
                    &&& goal == evaluate_all(keeps, cache.entries(), pending, at, run.settled(), script, used as nat)
                    &&& notes_of(notes@) + notes_of(turn.notes@) == heading + visits(pending, 0, at + 1)
                },
                Request::Finish(Ok(list)) => {
                    &&& goal == (Run { result: Some(Ok(results_of(list@))), cache: cache.entries(), used: used as nat })
                    &&& notes_of(notes@) + notes_of(turn.notes@) == heading + visits(pending, 0, pending.len() as int)
                },
                Request::Finish(Err(error)) => goal == (Run { result: Some(Err(error)), cache: cache.entries(),
                    used: used as nat }),
                Request::BuildRuntime { .. } => false,
            },
        decreases
            (if turn.request is Evaluate {
                pending.len() - run.position() + 1
            } else {
                0
            }),
    {
        let Turn { notes: mut told, request } = turn;
        let ghost before = notes@;
        let ghost added = told@;
        notes.append(&mut told);
        assert(notes_of(notes@) =~= notes_of(before) + notes_of(added));
        match request {
            Request::Finish(result) => {
                return Replayed { result: Some(result), notes, evaluations: used, builds: 1 };
            },
            Request::BuildRuntime { .. } => {
                return Replayed { result: None, notes, evaluations: used, builds: 1 };
            },
            Request::Evaluate { .. } => {
                if remaining.len() == 0 {
                    return Replayed { result: None, notes, evaluations: used, builds: 1 };
                }
                let ghost at = run.position();
                let ghost settled = run.settled();
                let ghost entries = cache.entries();
                let reply = remaining.remove(0);
                assert(reply == script[used as int]);
                assert(remaining@ =~= script.skip(used + 1));
                let ghost answer = reply;
                used = used + 1;
                turn = run.evaluated(cache, reply);
                proof {
                    match answer {
                        Err(_) => {},
                        Ok(response) => {
                            let more = settled.push((pending[at], verdict(response)));
                            let stop = next_miss(cache.entries(), pending, at + 1);
                            lemma_hits_use_no_answer(keeps, cache.entries(), pending, at + 1, more, script,
                                used as nat);
                            lemma_next_miss(cache.entries(), pending, at + 1);
                            if stop < pending.len() {
                                lemma_visits_join(pending, 0, at + 1, stop + 1);
                            } else {
                                lemma_visits_join(pending, 0, at + 1, stop);
                            }
                        },
                    }
                }
            },
        }
    }
}

} // verus!
