//! What holds of every evaluation.

use crate::config::Config;
use crate::enforcer::error::Error;
use crate::enforcer::outcome::{Judgement, Response};
use crate::enforcer::replay::{
    builds, evaluate_all, evaluation, has_policy, lemma_hits_use_no_answer, verdict, Run,
};
use crate::enforcer::runner::{all_cached, all_satisfied, hits, lemma_next_miss, next_miss};
use crate::enforcer::seedwing::{configured, EnforcerState};
use vstd::prelude::*;

verus! {

/// Without a policy for dependencies every dependency is satisfied: the evaluation hands
/// back each dependency with that result, in order, uses no answer of the engine and leaves
/// the cache alone, whatever the build or the engine would have said.
pub proof fn lemma_no_policy_satisfies_all(
    config: Option<Config>,
    failure: Option<String>,
    keeps: bool,
    cache: Map<Seq<char>, Judgement>,
    pending: Seq<Seq<char>>,
    built: Result<(), Error>,
    replies: Seq<Result<Response, Error>>,
)
    requires
        config matches Some(found) ==> found.dependencies.is_none(),
        config.is_none() ==> failure.is_none(),
    ensures
        evaluation(config, failure, keeps, cache, pending, built, replies) == (Run {
            result: Some(Ok(all_satisfied(pending))),
            cache,
            used: 0,
        }),
{
}

/// Where the configuration failed to load and none is in force, every evaluation fails as
/// a whole, and the engine is not consulted.
pub proof fn lemma_failed_configuration_fails_all(
    reason: String,
    keeps: bool,
    cache: Map<Seq<char>, Judgement>,
    pending: Seq<Seq<char>>,
    built: Result<(), Error>,
    replies: Seq<Result<Response, Error>>,
)
    ensures
        evaluation(None, Some(reason), keeps, cache, pending, built, replies) == (Run {
            result: Some(Err(Error::Configuration(reason))),
            cache,
            used: 0,
        }),
{
}

/// What an evaluation that runs through leaves behind, where the cache keeps what it is
/// given: the results so far stay as they are, every remaining dependency has its result in
/// the cache, and what the cache held before it still holds.
pub proof fn lemma_results_are_kept(
    cache: Map<Seq<char>, Judgement>,
    pending: Seq<Seq<char>>,
    from: int,
    settled: Seq<(Seq<char>, Judgement)>,
    replies: Seq<Result<Response, Error>>,
    used: nat,
)
    requires
        0 <= from <= pending.len(),
        evaluate_all(true, cache, pending, from, settled, replies, used).result matches Some(Ok(_)),
    ensures
        ({
            let run = evaluate_all(true, cache, pending, from, settled, replies, used);
            let results = run.result->0->Ok_0;
            &&& results.len() == settled.len() + pending.len() - from
            &&& forall|i: int| 0 <= i < settled.len() ==> results[i] == settled[i]
            &&& forall|k: int|
                from <= k < pending.len() ==> run.cache.contains_key(#[trigger] pending[k]) && results[settled.len() + k
                    - from] == (pending[k], run.cache[pending[k]])
            &&& forall|key: Seq<char>| #[trigger]
                cache.contains_key(key) ==> run.cache.contains_key(key) && run.cache[key] == cache[key]
        }),
    decreases pending.len() - from,
{
    if from < pending.len() {
        if cache.contains_key(pending[from]) {
            let more = settled.push((pending[from], cache[pending[from]]));
            lemma_results_are_kept(cache, pending, from + 1, more, replies, used);
            let run = evaluate_all(true, cache, pending, from + 1, more, replies, used);
            assert(run.result->0->Ok_0[settled.len() as int] == more[settled.len() as int]);
        } else {
            let response = replies[used as int]->Ok_0;
            let kept = cache.insert(pending[from], verdict(response));
            let more = settled.push((pending[from], verdict(response)));
            lemma_results_are_kept(kept, pending, from + 1, more, replies, used + 1);
            let run = evaluate_all(true, kept, pending, from + 1, more, replies, used + 1);
            assert(run.result->0->Ok_0[settled.len() as int] == more[settled.len() as int]);
            assert(kept.contains_key(pending[from]));
            assert forall|key: Seq<char>| #[trigger] cache.contains_key(key) implies run.cache.contains_key(key)
                && run.cache[key] == cache[key] by {
                assert(kept.contains_key(key));
            }
        }
    }
}

/// Where the cache holds every dependency, the evaluation hands out what the cache holds
/// and uses no answer.
pub proof fn lemma_full_cache_answers_all(
    keeps: bool,
    cache: Map<Seq<char>, Judgement>,
    pending: Seq<Seq<char>>,
    replies: Seq<Result<Response, Error>>,
)
    requires
        forall|k: int| 0 <= k < pending.len() ==> cache.contains_key(#[trigger] pending[k]),
    ensures
        evaluate_all(keeps, cache, pending, 0, Seq::empty(), replies, 0) == (Run {
            result: Some(Ok(hits(cache, pending, 0, pending.len() as int))),
            cache,
            used: 0,
        }),
{
    lemma_hits_use_no_answer(keeps, cache, pending, 0, Seq::empty(), replies, 0);
    lemma_next_miss(cache, pending, 0);
    let stop = next_miss(cache, pending, 0);
    assert(stop == pending.len());
    assert(Seq::<(Seq<char>, Judgement)>::empty() + hits(cache, pending, 0, stop) =~= hits(cache, pending, 0, stop));
}

/// Evaluating the same dependencies twice under an unchanged configuration gives the same
/// results, and the second evaluation does no work outside: the runtime is not built, and
/// whatever the build or the engine would say then, nothing of it is used.
pub proof fn lemma_second_evaluation_is_cached(
    config: Option<Config>,
    failure: Option<String>,
    cache: Map<Seq<char>, Judgement>,
    pending: Seq<Seq<char>>,
    built: Result<(), Error>,
    replies: Seq<Result<Response, Error>>,
    rebuilt: Result<(), Error>,
    later: Seq<Result<Response, Error>>,
)
    requires
        pending.len() > 0,
        evaluation(config, failure, true, cache, pending, built, replies).result matches Some(Ok(_)),
    ensures
        ({
            let first = evaluation(config, failure, true, cache, pending, built, replies);
            &&& evaluation(config, failure, true, first.cache, pending, rebuilt, later) == (Run {
                result: first.result,
                cache: first.cache,
                used: 0,
            })
            &&& builds(config, first.cache, pending) == 0
        }),
{
    if has_policy(config) {
        if all_cached(cache, pending) {
        } else {
            let first = evaluate_all(true, cache, pending, 0, Seq::empty(), replies, 0);
            lemma_results_are_kept(cache, pending, 0, Seq::empty(), replies, 0);
            lemma_next_miss(first.cache, pending, 0);
            assert(all_cached(first.cache, pending));
            assert(hits(first.cache, pending, 0, pending.len() as int) =~= first.result->0->Ok_0);
        }
    }
}

/// Whether `result` is what one of the first `used` answers says.
pub open spec fn from_engine(result: Judgement, replies: Seq<Result<Response, Error>>, used: nat) -> bool {
    exists|t: int| 0 <= t < used && t < replies.len() && #[trigger] replies[t] == Ok::<Response,
        Error>(replies[t]->Ok_0) && verdict(
        replies[t]->Ok_0,
    ) == result
}

/// Results come from the cache or from the engine and from nowhere else: where all that the
/// cache holds and all results so far are answers of the engine, so is every result of the
/// evaluation.
pub proof fn lemma_results_come_from_engine(
    keeps: bool,
    cache: Map<Seq<char>, Judgement>,
    pending: Seq<Seq<char>>,
    from: int,
    settled: Seq<(Seq<char>, Judgement)>,
    replies: Seq<Result<Response, Error>>,
    used: nat,
)
    requires
        0 <= from <= pending.len(),
        forall|key: Seq<char>| #[trigger] cache.contains_key(key) ==> from_engine(cache[key], replies, used),
        forall|i: int| 0 <= i < settled.len() ==> from_engine((#[trigger] settled[i]).1, replies, used),
        evaluate_all(keeps, cache, pending, from, settled, replies, used).result matches Some(Ok(_)),
    ensures
        ({
            let run = evaluate_all(keeps, cache, pending, from, settled, replies, used);
            let results = run.result->0->Ok_0;
            &&& used <= run.used
            &&& forall|i: int| 0 <= i < results.len() ==> from_engine((#[trigger] results[i]).1, replies, run.used)
        }),
    decreases pending.len() - from,
{
    if from < pending.len() {
        if cache.contains_key(pending[from]) {
            let more = settled.push((pending[from], cache[pending[from]]));
            lemma_results_come_from_engine(keeps, cache, pending, from + 1, more, replies, used);
        } else {
            let response = replies[used as int]->Ok_0;
            let result = verdict(response);
            let kept = if keeps {
                cache.insert(pending[from], result)
            } else {
                cache
            };
            let more = settled.push((pending[from], result));
            assert(replies[used as int] == Ok::<Response, Error>(response));
            assert(from_engine(result, replies, used + 1));
            assert forall|key: Seq<char>| #[trigger] kept.contains_key(key) implies from_engine(kept[key], replies,
                used + 1) by {
                if cache.contains_key(key) && (key != pending[from]) {
                    let t = choose|t: int|
                        0 <= t < used && t < replies.len() && #[trigger] replies[t] == Ok::<Response, Error>(
                            replies[t]->Ok_0,
                        ) && verdict(replies[t]->Ok_0) == cache[key];
                    assert(replies[t] == Ok::<Response, Error>(replies[t]->Ok_0));
                }
            }
            assert forall|i: int| 0 <= i < more.len() implies from_engine((#[trigger] more[i]).1, replies, used
                + 1) by {
                if i < settled.len() {
                    let t = choose|t: int|
                        0 <= t < used && t < replies.len() && #[trigger] replies[t] == Ok::<Response, Error>(
                            replies[t]->Ok_0,
                        ) && verdict(replies[t]->Ok_0) == settled[i].1;
                    assert(replies[t] == Ok::<Response, Error>(replies[t]->Ok_0));
                }
            }
            lemma_results_come_from_engine(keeps, kept, pending, from + 1, more, replies, used + 1);
        }
    }
}

/// After the cache was emptied, no result of before is used again: every result of the next
/// evaluation is an answer that the engine gives in that evaluation.
pub proof fn lemma_emptied_cache_is_ignored(
    keeps: bool,
    pending: Seq<Seq<char>>,
    replies: Seq<Result<Response, Error>>,
)
    requires
        evaluate_all(keeps, Map::empty(), pending, 0, Seq::empty(), replies, 0).result matches Some(Ok(_)),
    ensures
        ({
            let run = evaluate_all(keeps, Map::empty(), pending, 0, Seq::empty(), replies, 0);
            let results = run.result->0->Ok_0;
            &&& forall|i: int| 0 <= i < results.len() ==> from_engine((#[trigger] results[i]).1, replies, run.used)
            &&& pending.len() > 0 ==> run.used > 0
        }),
{
    lemma_results_come_from_engine(keeps, Map::empty(), pending, 0, Seq::empty(), replies, 0);
    if pending.len() > 0 {
        let response = replies[0]->Ok_0;
        let result = verdict(response);
        let kept = if keeps {
            Map::<Seq<char>, Judgement>::empty().insert(pending[0], result)
        } else {
            Map::<Seq<char>, Judgement>::empty()
        };
        lemma_used_grows(keeps, kept, pending, 1, seq![(pending[0], result)], replies, 1);
    }
}

/// An evaluation never gives an answer back: the number of answers used only grows.
pub proof fn lemma_used_grows(
    keeps: bool,
    cache: Map<Seq<char>, Judgement>,
    pending: Seq<Seq<char>>,
    from: int,
    settled: Seq<(Seq<char>, Judgement)>,
    replies: Seq<Result<Response, Error>>,
    used: nat,
)
    requires
        0 <= from <= pending.len(),
    ensures
        evaluate_all(keeps, cache, pending, from, settled, replies, used).used >= used,
    decreases pending.len() - from,
{
    if from < pending.len() {
        if cache.contains_key(pending[from]) {
            lemma_used_grows(keeps, cache, pending, from + 1, settled.push((pending[from], cache[pending[from]])),
                replies, used);
        } else if used < replies.len() {
            match replies[used as int] {
                Err(_) => {},
                Ok(response) => {
                    let kept = if keeps {
                        cache.insert(pending[from], verdict(response))
                    } else {
                        cache
                    };
                    lemma_used_grows(keeps, kept, pending, from + 1, settled.push((pending[from],
                        verdict(response))), replies, used + 1);
                },
            }
        }
    }
}

/// After a configuration was taken over, be it a new one or the loss of the marker file,
/// nothing that was found before is used again: the next evaluation comes to what it would
/// come to with a cache that never held anything, and every result of it is an answer that
/// the engine gives in that evaluation.
pub proof fn lemma_reconfiguration_discards_results(
    before: EnforcerState,
    loaded: Option<Result<Config, String>>,
    pending: Seq<Seq<char>>,
    built: Result<(), Error>,
    replies: Seq<Result<Response, Error>>,
)
    requires
        !(loaded matches Some(Err(_))),
    ensures
        ({
            let after = configured(before, loaded);
            let run = evaluation(after.config, after.failure, true, after.cache, pending, built, replies);
            &&& after.cache == Map::<Seq<char>, Judgement>::empty()
            &&& after.failure.is_none()
            &&& has_policy(after.config) ==> builds(after.config, after.cache, pending) == 1
            &&& (has_policy(after.config) && run.result matches Some(Ok(_))) ==> forall|i: int|
                0 <= i < run.result->0->Ok_0.len() ==> from_engine(
                    (#[trigger] run.result->0->Ok_0[i]).1,
                    replies,
                    run.used,
                )
        }),
{
    let after = configured(before, loaded);
    let run = evaluation(after.config, after.failure, true, after.cache, pending, built, replies);
    if has_policy(after.config) && run.result matches Some(Ok(_)) {
        assert(!all_cached(after.cache, pending));
        lemma_emptied_cache_is_ignored(true, pending, replies);
    }
}

/// A configuration that is in force stays in force when a later attempt to load the
/// configuration fails: evaluations go on as before, with the results that were found
/// before.
pub proof fn lemma_failed_reload_changes_no_evaluation(
    before: EnforcerState,
    reason: String,
    pending: Seq<Seq<char>>,
    built: Result<(), Error>,
    replies: Seq<Result<Response, Error>>,
)
    requires
        before.config.is_some(),
    ensures
        ({
            let after = configured(before, Some(Err(reason)));
            evaluation(after.config, after.failure, true, after.cache, pending, built, replies) == evaluation(
                before.config,
                before.failure,
                true,
                before.cache,
                pending,
                built,
                replies,
            )
        }),
{
}

} // verus!
