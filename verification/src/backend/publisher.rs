//! Merging diagnostics of several origins and handing them to a sink.

use crate::diagnostic::Diagnostic;
use crate::utils::location::{file_url, file_url_of};
use vstd::prelude::*;

verus! {

/// The origin of a set of diagnostics.
#[derive(Copy, Clone, Eq, PartialEq, Hash, Debug, Structural)]
pub enum Category {
    /// Problems with the configuration of the enforcer itself.
    Enforcer,
    /// Problems found in the dependencies that a manifest declares.
    Source,
}

/// A sink for diagnostics: each call replaces what the sink shows for one location.
pub trait Target {
    /// Every call that the sink has received, oldest first: the location and the
    /// diagnostics handed over.
    spec fn received(&self) -> Seq<(Seq<char>, Seq<Diagnostic>)>;

    /// Show `diags`, and nothing else, for `uri`.
    fn publish(&mut self, uri: String, diags: Vec<Diagnostic>)
        ensures
            final(self).received() == old(self).received().push((uri@, diags@)),
    ;
}

/// What a list of calls looks like to a reader of the log.
pub open spec fn log_of(calls: Seq<(String, Vec<Diagnostic>)>) -> Seq<(Seq<char>, Seq<Diagnostic>)> {
    Seq::new(calls.len(), |i: int| (calls[i].0@, calls[i].1@))
}

/// A sink that only records what it is given.
#[derive(Debug)]
pub struct MockTarget {
    calls: Vec<(String, Vec<Diagnostic>)>,
}

impl Target for MockTarget {
    /// What was recorded and not yet drained or cleared.
    closed spec fn received(&self) -> Seq<(Seq<char>, Seq<Diagnostic>)> {
        log_of(self.calls@)
    }

    fn publish(&mut self, uri: String, diags: Vec<Diagnostic>) {
        self.calls.push((uri, diags));
        assert(log_of(self.calls@) =~= log_of(old(self).calls@).push((uri@, diags@)));
    }
}

impl Default for MockTarget {
    fn default() -> (target: Self)
        ensures
            target.received() == Seq::<(Seq<char>, Seq<Diagnostic>)>::empty(),
    {
        let target = MockTarget { calls: Vec::new() };
        assert(log_of(target.calls@) =~= Seq::empty());
        target
    }
}

impl MockTarget {
    /// Forget every recorded call.
    pub fn clear(&mut self)
        ensures
            final(self).received() == Seq::<(Seq<char>, Seq<Diagnostic>)>::empty(),
    {
        self.calls = Vec::new();
        assert(log_of(self.calls@) =~= Seq::empty());
    }

    /// A copy of the recorded calls, oldest first.
    pub fn get(&self) -> (calls: Vec<(String, Vec<Diagnostic>)>)
        ensures
            log_of(calls@) == self.received(),
    {
        let mut copy: Vec<(String, Vec<Diagnostic>)> = Vec::new();
        let mut i: usize = 0;
        while i < self.calls.len()
            invariant
                i <= self.calls.len(),
                copy.len() == i,
                forall|j: int| 0 <= j < i ==> copy[j].0@ == self.calls[j].0@ && copy[j].1@ == self.calls[j].1@,
            decreases self.calls.len() - i,
        {
            let uri = self.calls[i].0.clone();
            let diags = self.calls[i].1.clone();
            assert(diags@ =~= self.calls[i as int].1@);
            copy.push((uri, diags));
            i += 1;
        }
        assert(log_of(copy@) =~= log_of(self.calls@));
        copy
    }

    /// The recorded calls, oldest first; the record is empty afterwards.
    pub fn drain(&mut self) -> (calls: Vec<(String, Vec<Diagnostic>)>)
        ensures
            log_of(calls@) == old(self).received(),
            final(self).received() == Seq::<(Seq<char>, Seq<Diagnostic>)>::empty(),
    {
        let mut calls: Vec<(String, Vec<Diagnostic>)> = Vec::new();
        core::mem::swap(&mut calls, &mut self.calls);
        assert(log_of(self.calls@) =~= Seq::empty());
        calls
    }
}

/// What is known for one tracked location: the diagnostics last set by each origin.
pub struct LocationState {
    pub location: Seq<char>,
    pub enforcer: Option<Seq<Diagnostic>>,
    pub source: Option<Seq<Diagnostic>>,
}

impl LocationState {
    /// What the given origin last set for this location, if it still stands.
    pub open spec fn contribution(self, category: Category) -> Option<Seq<Diagnostic>> {
        match category {
            Category::Enforcer => self.enforcer,
            Category::Source => self.source,
        }
    }

    /// Everything to show for this location: the enforcer's diagnostics, then the source's.
    pub open spec fn flattened(self) -> Seq<Diagnostic> {
        let first = match self.enforcer {
            Some(diags) => diags,
            None => Seq::empty(),
        };
        let second = match self.source {
            Some(diags) => diags,
            None => Seq::empty(),
        };
        first + second
    }
}

/// The other origin.
pub open spec fn other(category: Category) -> Category {
    match category {
        Category::Enforcer => Category::Source,
        Category::Source => Category::Enforcer,
    }
}

/// The locations of a list of tracked entries, in order.
pub open spec fn locations(entries: Seq<LocationState>) -> Seq<Seq<char>> {
    Seq::new(entries.len(), |i: int| entries[i].location)
}

/// What a published map looks like once the strings are read: location and diagnostics.
pub open spec fn incoming_of(map: Seq<(String, Vec<Diagnostic>)>) -> Seq<(Seq<char>, Seq<Diagnostic>)> {
    log_of(map)
}

/// The diagnostics that `incoming` holds for `location`: those of the last pair that names it.
pub open spec fn last_value(incoming: Seq<(Seq<char>, Seq<Diagnostic>)>, location: Seq<char>) -> Option<Seq<Diagnostic>>
    decreases incoming.len(),
{
    if incoming.len() == 0 {
        None
    } else if incoming.last().0 == location {
        Some(incoming.last().1)
    } else {
        last_value(incoming.drop_last(), location)
    }
}

/// The tracked locations after `incoming` arrived: those known before, then each new one in
/// the order in which `incoming` first names it.
pub open spec fn locations_after(known: Seq<Seq<char>>, incoming: Seq<(Seq<char>, Seq<Diagnostic>)>) -> Seq<Seq<char>>
    decreases incoming.len(),
{
    if incoming.len() == 0 {
        known
    } else {
        let before = locations_after(known, incoming.drop_last());
        if before.contains(incoming.last().0) {
            before
        } else {
            before.push(incoming.last().0)
        }
    }
}

/// The state after publishing `incoming` for `category` on top of `before`.
///
/// Every location known before stays tracked, and each location that `incoming` names is
/// tracked from now on. For every tracked location the category's contribution is what
/// `incoming` holds for it, or nothing at all; the other origin's contribution is untouched.
pub open spec fn published(before: Seq<LocationState>, category: Category, incoming: Seq<(Seq<char>,
    Seq<Diagnostic>)>) -> Seq<LocationState> {
    let places = locations_after(locations(before), incoming);
    Seq::new(
        places.len(),
        |i: int|
            {
                let mine = last_value(incoming, places[i]);
                let theirs = if i < before.len() {
                    before[i].contribution(other(category))
                } else {
                    None
                };
                match category {
                    Category::Enforcer => LocationState { location: places[i], enforcer: mine, source: theirs },
                    Category::Source => LocationState { location: places[i], enforcer: theirs, source: mine },
                }
            },
    )
}

/// The calls that tell a sink everything about `entries`: one per location, in order, each
/// with the full list for that location, be it empty.
pub open spec fn notices(entries: Seq<LocationState>) -> Seq<(Seq<char>, Seq<Diagnostic>)> {
    Seq::new(entries.len(), |i: int| (entries[i].location, entries[i].flattened()))
}

/// No location occurs twice.
pub open spec fn distinct(places: Seq<Seq<char>>) -> bool {
    forall|i: int, j: int| 0 <= i < j < places.len() ==> places[i] != places[j]
}

/// `incoming` names `location`.
pub open spec fn has_key(incoming: Seq<(Seq<char>, Seq<Diagnostic>)>, location: Seq<char>) -> bool {
    exists|i: int| 0 <= i < incoming.len() && #[trigger] incoming[i].0 == location
}

/// A location is named by `incoming` exactly when `incoming` holds diagnostics for it.
pub proof fn lemma_last_value_some(incoming: Seq<(Seq<char>, Seq<Diagnostic>)>, location: Seq<char>)
    ensures
        has_key(incoming, location) <==> last_value(incoming, location).is_some(),
    decreases incoming.len(),
{
    if incoming.len() > 0 {
        let rest = incoming.drop_last();
        lemma_last_value_some(rest, location);
        if incoming.last().0 == location {
            assert(incoming[incoming.len() - 1].0 == location);
        } else if has_key(incoming, location) {
            let i = choose|i: int| 0 <= i < incoming.len() && #[trigger] incoming[i].0 == location;
            assert(rest[i].0 == location);
        } else if has_key(rest, location) {
            let i = choose|i: int| 0 <= i < rest.len() && #[trigger] rest[i].0 == location;
            assert(incoming[i].0 == location);
        }
    }
}

/// The locations known before stay where they are when more arrive.
pub proof fn lemma_known_locations_stay(known: Seq<Seq<char>>, incoming: Seq<(Seq<char>, Seq<Diagnostic>)>)
    ensures
        locations_after(known, incoming).len() >= known.len(),
        locations_after(known, incoming).take(known.len() as int) == known,
        incoming.len() == 0 ==> locations_after(known, incoming) == known,
    decreases incoming.len(),
{
    if incoming.len() > 0 {
        lemma_known_locations_stay(known, incoming.drop_last());
        let before = locations_after(known, incoming.drop_last());
        assert(before.push(incoming.last().0).take(known.len() as int) =~= before.take(known.len() as int));
    } else {
        assert(known.take(known.len() as int) =~= known);
    }
}

/// No publish omits a tracked location: each location tracked before is told to the sink
/// again, at its place, whatever the new map holds.
pub proof fn lemma_every_tracked_location_is_published(
    before: Seq<LocationState>,
    category: Category,
    incoming: Seq<(Seq<char>, Seq<Diagnostic>)>,
    k: int,
)
    requires
        0 <= k < before.len(),
    ensures
        k < notices(published(before, category, incoming)).len(),
        notices(published(before, category, incoming))[k].0 == before[k].location,
{
    lemma_known_locations_stay(locations(before), incoming);
    let places = locations_after(locations(before), incoming);
    assert(places.take(before.len() as int)[k] == locations(before)[k]);
}

/// Publishing for one origin leaves what the other origin said untouched, for every
/// location that was tracked.
pub proof fn lemma_categories_are_independent(
    before: Seq<LocationState>,
    category: Category,
    incoming: Seq<(Seq<char>, Seq<Diagnostic>)>,
    k: int,
)
    requires
        0 <= k < before.len(),
    ensures
        k < published(before, category, incoming).len(),
        published(before, category, incoming)[k].contribution(other(category)) == before[k].contribution(
            other(category),
        ),
{
    lemma_known_locations_stay(locations(before), incoming);
}

/// Publishing an empty map for an origin retracts what that origin said: every tracked
/// location is told to the sink with the other origin's diagnostics alone.
pub proof fn lemma_empty_map_retracts(before: Seq<LocationState>, category: Category, k: int)
    requires
        0 <= k < before.len(),
    ensures
        published(before, category, Seq::empty()).len() == before.len(),
        notices(published(before, category, Seq::empty()))[k] == (
            before[k].location,
            match before[k].contribution(other(category)) {
                Some(diags) => diags,
                None => Seq::empty(),
            },
        ),
{
    let incoming = Seq::<(Seq<char>, Seq<Diagnostic>)>::empty();
    lemma_known_locations_stay(locations(before), incoming);
    let after = published(before, category, incoming);
    assert(after[k].location == before[k].location);
    assert(last_value(incoming, before[k].location) == None::<Seq<Diagnostic>>);
    let rest = match before[k].contribution(other(category)) {
        Some(diags) => diags,
        None => Seq::empty(),
    };
    assert(after[k].flattened() =~= rest);
}

/// A first publish for a location shows its diagnostics, and an empty publish for the same
/// origin afterwards shows the empty list for it: the retraction is never left out.
pub proof fn lemma_publish_then_retract(category: Category, location: Seq<char>, diags: Seq<Diagnostic>)
    ensures
        ({
            let first = published(Seq::empty(), category, seq![(location, diags)]);
            let second = published(first, category, Seq::empty());
            &&& notices(first) == seq![(location, diags)]
            &&& notices(second) == seq![(location, Seq::<Diagnostic>::empty())]
        }),
{
    let nothing = Seq::<LocationState>::empty();
    let incoming = seq![(location, diags)];
    let first = published(nothing, category, incoming);
    assert(incoming.drop_last() =~= Seq::empty());
    assert(locations(nothing) =~= Seq::empty());
    assert(locations_after(locations(nothing), incoming.drop_last()) =~= Seq::empty());
    assert(locations_after(locations(nothing), incoming) =~= seq![location]);
    assert(last_value(incoming, location) == Some(diags));
    assert(first.len() == 1);
    assert(first[0].flattened() =~= diags);
    assert(notices(first) =~= seq![(location, diags)]);
    lemma_empty_map_retracts(first, category, 0);
    let second = published(first, category, Seq::empty());
    assert(first[0].contribution(other(category)) == None::<Seq<Diagnostic>>);
    assert(notices(second) =~= seq![(location, Seq::<Diagnostic>::empty())]);
}

/// After the enforcer and the source have each published for a location, in either order,
/// the sink's latest list for it holds both contributions: the enforcer's, then the source's.
pub proof fn lemma_both_contributions_are_shown(
    first: Category,
    location: Seq<char>,
    from_enforcer: Seq<Diagnostic>,
    from_source: Seq<Diagnostic>,
)
    ensures
        ({
            let opening = match first {
                Category::Enforcer => from_enforcer,
                Category::Source => from_source,
            };
            let closing = match first {
                Category::Enforcer => from_source,
                Category::Source => from_enforcer,
            };
            let one = published(Seq::empty(), first, seq![(location, opening)]);
            let two = published(one, other(first), seq![(location, closing)]);
            notices(two) == seq![(location, from_enforcer + from_source)]
        }),
{
    let opening = match first {
        Category::Enforcer => from_enforcer,
        Category::Source => from_source,
    };
    let closing = match first {
        Category::Enforcer => from_source,
        Category::Source => from_enforcer,
    };
    let nothing = Seq::<LocationState>::empty();
    let incoming = seq![(location, opening)];
    let one = published(nothing, first, incoming);
    assert(incoming.drop_last() =~= Seq::empty());
    assert(locations(nothing) =~= Seq::empty());
    assert(locations_after(locations(nothing), incoming.drop_last()) =~= Seq::empty());
    assert(locations_after(locations(nothing), incoming) =~= seq![location]);
    assert(last_value(incoming, location) == Some(opening));
    assert(one.len() == 1);
    let again = seq![(location, closing)];
    let two = published(one, other(first), again);
    assert(again.drop_last() =~= Seq::empty());
    assert(locations(one) =~= seq![location]);
    assert(locations_after(locations(one), again.drop_last()) =~= seq![location]);
    assert(seq![location][0] == location);
    assert(seq![location].contains(location));
    assert(locations_after(locations(one), again) =~= seq![location]);
    assert(last_value(again, location) == Some(closing));
    assert(two.len() == 1);
    assert(two[0].flattened() =~= from_enforcer + from_source);
    assert(notices(two) =~= seq![(location, from_enforcer + from_source)]);
}

/// The place of the first pair for `location` in a list of buckets, if there is one.
pub open spec fn bucket_of(buckets: Seq<(Seq<char>, Seq<Diagnostic>)>, location: Seq<char>) -> Option<int>
    decreases buckets.len(),
{
    if buckets.len() == 0 {
        None
    } else {
        match bucket_of(buckets.drop_last(), location) {
            Some(at) => Some(at),
            None => if buckets.last().0 == location {
                Some(buckets.len() - 1)
            } else {
                None
            },
        }
    }
}

/// A list of single diagnostics sorted into buckets by location: the locations in the order
/// in which the list first names them, each with its diagnostics in the order of the list.
pub open spec fn bucketed(list: Seq<(Seq<char>, Diagnostic)>) -> Seq<(Seq<char>, Seq<Diagnostic>)>
    decreases list.len(),
{
    if list.len() == 0 {
        Seq::empty()
    } else {
        let before = bucketed(list.drop_last());
        let location = list.last().0;
        match bucket_of(before, location) {
            Some(at) => before.update(at, (location, before[at].1.push(list.last().1))),
            None => before.push((location, seq![list.last().1])),
        }
    }
}

/// What a list of single diagnostics looks like once the strings are read.
pub open spec fn singles_of(list: Seq<(String, Diagnostic)>) -> Seq<(Seq<char>, Diagnostic)> {
    Seq::new(list.len(), |i: int| (list[i].0@, list[i].1))
}

/// The first bucket for a location, where there is one, is a bucket for that location.
pub proof fn lemma_bucket_of(buckets: Seq<(Seq<char>, Seq<Diagnostic>)>, location: Seq<char>)
    ensures
        match bucket_of(buckets, location) {
            Some(at) => 0 <= at < buckets.len() && buckets[at].0 == location && forall|k: int|
                0 <= k < at ==> (#[trigger] buckets[k]).0 != location,
            None => forall|k: int| 0 <= k < buckets.len() ==> (#[trigger] buckets[k]).0 != location,
        },
    decreases buckets.len(),
{
    if buckets.len() > 0 {
        lemma_bucket_of(buckets.drop_last(), location);
        match bucket_of(buckets.drop_last(), location) {
            Some(at) => {
                assert(buckets.drop_last()[at] == buckets[at]);
                assert forall|k: int| 0 <= k < at implies (#[trigger] buckets[k]).0 != location by {
                    assert(buckets.drop_last()[k] == buckets[k]);
                }
            },
            None => {
                assert forall|k: int| 0 <= k < buckets.len() - 1 implies (#[trigger] buckets[k]).0 != location by {
                    assert(buckets.drop_last()[k] == buckets[k]);
                }
            },
        }
    }
}

/// The index of the first bucket for `location`.
fn first_bucket(map: &Vec<(String, Vec<Diagnostic>)>, location: &String) -> (found: Option<usize>)
    ensures
        match found {
            Some(at) => at < map.len() && map[at as int].0@ == location@ && forall|k: int|
                0 <= k < at ==> (#[trigger] map[k]).0@ != location@,
            None => forall|k: int| 0 <= k < map.len() ==> (#[trigger] map[k]).0@ != location@,
        },
{
    let mut at: usize = 0;
    while at < map.len()
        invariant
            at <= map.len(),
            forall|k: int| 0 <= k < at ==> (#[trigger] map[k]).0@ != location@,
        decreases map.len() - at,
    {
        if map[at].0 == *location {
            return Some(at);
        }
        at += 1;
    }
    None
}

/// Sorts single diagnostics into buckets by location.
pub fn bucket(list: Vec<(String, Diagnostic)>) -> (map: Vec<(String, Vec<Diagnostic>)>)
    ensures
        incoming_of(map@) == bucketed(singles_of(list@)),
{
    let mut map: Vec<(String, Vec<Diagnostic>)> = Vec::new();
    let ghost singles = singles_of(list@);
    let mut i: usize = 0;
    assert(singles.take(0) =~= Seq::empty());
    assert(incoming_of(map@) =~= Seq::empty());
    while i < list.len()
        invariant
            i <= list.len(),
            singles == singles_of(list@),
            incoming_of(map@) == bucketed(singles.take(i as int)),
        decreases list.len() - i,
    {
        let ghost before = incoming_of(map@);
        let ghost held = map@;
        let ghost location = list[i as int].0@;
        assert(singles.take(i + 1).drop_last() =~= singles.take(i as int));
        assert(singles.take(i + 1).last() == (location, list[i as int].1));
        proof {
            lemma_bucket_of(before, location);
        }
        let diagnostic = list[i].1.clone();
        let slot = first_bucket(&map, &list[i].0);
        let found = slot.is_some();
        let at: usize = match slot {
            Some(at) => at,
            None => 0,
        };
        if found {
            assert(before[at as int].0 == location);
            assert(bucket_of(before, location) == Some(at as int)) by {
                match bucket_of(before, location) {
                    Some(first) => {
                        if first < at {
                            assert(before[first] == (map[first].0@, map[first].1@));
                        } else if first > at {
                            assert(before[at as int].0 == location);
                        }
                    },
                    None => {
                        assert(before[at as int].0 == location);
                    },
                }
            }
            map[at].1.push(diagnostic);
            assert(incoming_of(map@) =~= before.update(at as int, (location, before[at as int].1.push(diagnostic))));
        } else {
            assert(bucket_of(before, location).is_none()) by {
                match bucket_of(before, location) {
                    Some(first) => {
                        assert(before[first] == (map[first].0@, map[first].1@));
                    },
                    None => {},
                }
            }
            let mut fresh: Vec<Diagnostic> = Vec::new();
            fresh.push(diagnostic);
            map.push((list[i].0.clone(), fresh));
            assert(incoming_of(map@) =~= before.push((location, seq![diagnostic])));
        }
        i += 1;
    }
    assert(singles.take(list.len() as int) =~= singles);
    map
}

/// The entries of a map from paths that stand under the `file:` URL of their path. An entry
/// whose path has no such URL is left out.
pub open spec fn file_entries(map: Seq<(Seq<char>, Seq<Diagnostic>)>) -> Seq<(Seq<char>, Seq<Diagnostic>)>
    decreases map.len(),
{
    if map.len() == 0 {
        Seq::empty()
    } else {
        let before = file_entries(map.drop_last());
        match file_url_of(map.last().0) {
            Some(url) => before.push((url, map.last().1)),
            None => before,
        }
    }
}

/// What the publisher remembers for one location.
struct Entry {
    location: String,
    enforcer: Option<Vec<Diagnostic>>,
    source: Option<Vec<Diagnostic>>,
}

impl View for Entry {
    type V = LocationState;

    closed spec fn view(&self) -> LocationState {
        LocationState {
            location: self.location@,
            enforcer: match self.enforcer {
                Some(diags) => Some(diags@),
                None => None,
            },
            source: match self.source {
                Some(diags) => Some(diags@),
                None => None,
            },
        }
    }
}

/// What a list of entries looks like to a reader.
spec fn entries_view(state: Seq<Entry>) -> Seq<LocationState> {
    Seq::new(state.len(), |i: int| state[i]@)
}

/// Whether `map` names `location`.
fn provided(map: &Vec<(String, Vec<Diagnostic>)>, location: &String) -> (found: bool)
    ensures
        found == has_key(incoming_of(map@), location@),
{
    let mut i: usize = 0;
    while i < map.len()
        invariant
            i <= map.len(),
            forall|j: int| 0 <= j < i ==> map[j].0@ != location@,
        decreases map.len() - i,
    {
        if map[i].0 == *location {
            assert(incoming_of(map@)[i as int].0 == location@);
            return true;
        }
        i += 1;
    }
    false
}

/// The index of the entry for `location`, if it is tracked.
fn position(state: &Vec<Entry>, location: &String) -> (found: Option<usize>)
    ensures
        match found {
            Some(i) => i < state.len() && state[i as int].location@ == location@,
            None => forall|i: int| 0 <= i < state.len() ==> state[i].location@ != location@,
        },
{
    let mut i: usize = 0;
    while i < state.len()
        invariant
            i <= state.len(),
            forall|j: int| 0 <= j < i ==> state[j].location@ != location@,
        decreases state.len() - i,
    {
        if state[i].location == *location {
            return Some(i);
        }
        i += 1;
    }
    None
}

/// Adds copies of `diags` to the end of `all`.
fn append_copies(all: &mut Vec<Diagnostic>, diags: &Vec<Diagnostic>)
    ensures
        final(all)@ == old(all)@ + diags@,
{
    let mut i: usize = 0;
    while i < diags.len()
        invariant
            i <= diags.len(),
            all@ == old(all)@ + diags@.take(i as int),
        decreases diags.len() - i,
    {
        all.push(diags[i].clone());
        assert(diags@.take(i + 1) =~= diags@.take(i as int).push(diags[i as int]));
        i += 1;
    }
    assert(diags@.take(diags.len() as int) =~= diags@);
}

/// Everything to show for one entry.
fn flatten(entry: &Entry) -> (all: Vec<Diagnostic>)
    ensures
        all@ == entry@.flattened(),
{
    let mut all: Vec<Diagnostic> = Vec::new();
    match &entry.enforcer {
        Some(diags) => append_copies(&mut all, diags),
        None => {},
    }
    match &entry.source {
        Some(diags) => append_copies(&mut all, diags),
        None => {},
    }
    assert(all@ =~= entry@.flattened());
    all
}

/// Collects diagnostics per location and origin, and republishes every tracked location
/// whenever one origin reports anew.
pub struct DiagnosticPublisher<T: Target> {
    target: T,
    state: Vec<Entry>,
}

impl<T: Target> View for DiagnosticPublisher<T> {
    type V = Seq<LocationState>;

    /// The tracked locations, in the order in which they were first published to.
    closed spec fn view(&self) -> Seq<LocationState> {
        Seq::new(self.state@.len(), |i: int| self.state@[i]@)
    }
}

impl<T: Target> DiagnosticPublisher<T> {
    /// The sink that this publisher feeds.
    pub closed spec fn sink(&self) -> T {
        self.target
    }

    /// Each location is tracked once.
    pub open spec fn wf(&self) -> bool {
        distinct(locations(self@))
    }

    /// A publisher that tracks nothing yet.
    pub fn new(target: T) -> (publisher: Self)
        ensures
            publisher@ == Seq::<LocationState>::empty(),
            publisher.sink() == target,
            publisher.wf(),
    {
        let publisher = DiagnosticPublisher { target, state: Vec::new() };
        assert(publisher@ =~= Seq::empty());
        publisher
    }

    /// The sink, to look at.
    pub fn target(&self) -> (target: &T)
        ensures
            *target == self.sink(),
    {
        &self.target
    }

    /// The sink, to work on; the tracked state stays as it is.
    pub fn target_mut(&mut self) -> (target: &mut T)
        ensures
            *target == old(self).sink(),
            final(self).sink() == *final(target),
            final(self)@ == old(self)@,
    {
        &mut self.target
    }

    /// Takes `map` as everything that `category` has to say, and tells the sink about every
    /// tracked location.
    ///
    /// A location that `map` does not name loses what `category` said of it before; a
    /// location that it names gets the diagnostics of the last pair naming it. The sink then
    /// receives one call for each tracked location, in tracking order, with the full list
    /// for that location across both origins, also where that list is empty.
    pub fn publish(&mut self, category: Category, map: Vec<(String, Vec<Diagnostic>)>)
        requires
            old(self).wf(),
        ensures
            final(self).wf(),
            final(self)@ == published(old(self)@, category, incoming_of(map@)),
            final(self).sink().received() == old(self).sink().received() + notices(final(self)@),
    {
        let ghost before = self@;
        let ghost incoming = incoming_of(map@);
        let ghost start = self.state@;

        // drop what the category said of the locations that are gone
        let mut i: usize = 0;
        while i < self.state.len()
            invariant
                i <= self.state.len(),
                self.state.len() == start.len(),
                self.target == old(self).target,
                incoming == incoming_of(map@),
                forall|k: int| 0 <= k < start.len() ==> (#[trigger] self.state[k]).location == start[k].location,
                forall|k: int| 0 <= k < start.len()
                    ==> (#[trigger] self.state[k])@.contribution(other(category))
                    == start[k]@.contribution(other(category)),
                forall|k: int| i <= k < start.len() ==> (#[trigger] self.state[k])@ == start[k]@,
                forall|k: int| 0 <= k < i ==> (#[trigger] self.state[k])@.contribution(category)
                    == (if has_key(incoming, start[k].location@) {
                    start[k]@.contribution(category)
                } else {
                    None
                }),
            decreases self.state.len() - i,
        {
            if !provided(&map, &self.state[i].location) {
                match category {
                    Category::Enforcer => {
                        self.state[i].enforcer = None;
                    },
                    Category::Source => {
                        self.state[i].source = None;
                    },
                }
            }
            i += 1;
        }

        // take over what the category says now
        assert(locations(entries_view(self.state@)) =~= locations(before));
        let mut j: usize = 0;
        while j < map.len()
            invariant
                j <= map.len(),
                self.state.len() >= start.len(),
                self.target == old(self).target,
                incoming == incoming_of(map@),
                before == entries_view(start),
                distinct(locations(before)),
                locations(entries_view(self.state@)) == locations_after(locations(before), incoming.take(j as int)),
                distinct(locations(entries_view(self.state@))),
                forall|k: int| 0 <= k < self.state.len()
                    ==> (#[trigger] self.state[k])@.contribution(other(category)) == (if k < start.len() {
                    start[k]@.contribution(other(category))
                } else {
                    None
                }),
                forall|k: int| 0 <= k < self.state.len() ==> (#[trigger] self.state[k])@.contribution(category)
                    == (match last_value(incoming.take(j as int), self.state[k].location@) {
                    Some(diags) => Some(diags),
                    None => if k < start.len() && has_key(incoming, self.state[k].location@) {
                        start[k]@.contribution(category)
                    } else {
                        None
                    },
                }),
            decreases map.len() - j,
        {
            let ghost old_state = self.state@;
            let ghost prefix = incoming.take(j as int);
            let ghost next = incoming.take(j + 1);
            assert(next.drop_last() =~= prefix);
            assert(next.last() == incoming[j as int]);
            assert(incoming[j as int] == (map[j as int].0@, map[j as int].1@));
            let diags = map[j].1.clone();
            assert(diags@ =~= map[j as int].1@);
            match position(&self.state, &map[j].0) {
                Some(at) => {
                    match category {
                        Category::Enforcer => {
                            self.state[at].enforcer = Some(diags);
                        },
                        Category::Source => {
                            self.state[at].source = Some(diags);
                        },
                    }
                    assert(locations(entries_view(self.state@)) =~= locations(entries_view(old_state)));
                    assert(locations(entries_view(old_state))[at as int] == map[j as int].0@);
                    assert(locations(entries_view(old_state)).contains(map[j as int].0@));
                    assert forall|k: int| 0 <= k < self.state.len() && k != at implies self.state[k].location@
                        != map[j as int].0@ by {
                        assert(locations(entries_view(old_state))[k] == old_state[k].location@);
                    }
                },
                None => {
                    let location = map[j].0.clone();
                    let entry = match category {
                        Category::Enforcer => Entry { location, enforcer: Some(diags), source: None },
                        Category::Source => Entry { location, enforcer: None, source: Some(diags) },
                    };
                    self.state.push(entry);
                    assert(locations(entries_view(self.state@)) =~= locations(entries_view(old_state)).push(map[j as int].0@));
                    assert(!locations(entries_view(old_state)).contains(map[j as int].0@)) by {
                        if locations(entries_view(old_state)).contains(map[j as int].0@) {
                            let k = choose|k: int| 0 <= k < old_state.len()
                                && locations(entries_view(old_state))[k] == map[j as int].0@;
                            assert(old_state[k].location@ == map[j as int].0@);
                        }
                    }
                    assert forall|a: int, b: int| 0 <= a < b < self.state.len()
                        implies locations(entries_view(self.state@))[a]
                        != locations(entries_view(self.state@))[b] by {
                        if b < old_state.len() {
                            assert(locations(entries_view(old_state))[a] != locations(entries_view(old_state))[b]);
                        } else {
                            assert(old_state[a].location@ != map[j as int].0@);
                        }
                    }
                },
            }
            j += 1;
        }
        assert(incoming.take(map.len() as int) =~= incoming);

        proof {
            let after = entries_view(self.state@);
            let goal = published(before, category, incoming);
            assert(self@ == after);
            assert(after.len() == goal.len());
            assert forall|k: int| 0 <= k < after.len() implies after[k] == goal[k] by {
                let place = locations(after)[k];
                assert(place == self.state[k].location@);
                lemma_last_value_some(incoming, place);
                if k < start.len() {
                    assert(before[k] == start[k]@);
                }
            }
            assert(after =~= goal);
        }

        // tell the sink about every tracked location
        let ghost heard = self.target.received();
        let mut n: usize = 0;
        while n < self.state.len()
            invariant
                n <= self.state.len(),
                self@ == published(before, category, incoming),
                distinct(locations(self@)),
                heard == old(self).target.received(),
                self.target.received() == heard + notices(self@).take(n as int),
            decreases self.state.len() - n,
        {
            let uri = self.state[n].location.clone();
            let diags = flatten(&self.state[n]);
            self.target.publish(uri, diags);
            assert(notices(self@).take(n + 1) =~= notices(self@).take(n as int).push(notices(self@)[n as int]));
            assert(self.target.received() =~= heard + notices(self@).take(n + 1));
            n += 1;
        }
        assert(notices(self@).take(self.state.len() as int) =~= notices(self@));
    }

    /// Publishes single diagnostics for `category`, sorted into buckets by location first.
    pub fn publish_list(&mut self, category: Category, list: Vec<(String, Diagnostic)>)
        requires
            old(self).wf(),
        ensures
            final(self).wf(),
            final(self)@ == published(old(self)@, category, bucketed(singles_of(list@))),
            final(self).sink().received() == old(self).sink().received() + notices(final(self)@),
    {
        let map = bucket(list);
        self.publish(category, map);
    }

    /// Publishes diagnostics that are keyed by file path. Each path is turned into its
    /// `file:` URL; an entry whose path has none is dropped.
    pub fn publish_file(&mut self, category: Category, map: Vec<(String, Vec<Diagnostic>)>)
        requires
            old(self).wf(),
        ensures
            final(self).wf(),
            final(self)@ == published(old(self)@, category, file_entries(incoming_of(map@))),
            final(self).sink().received() == old(self).sink().received() + notices(final(self)@),
    {
        let mut located: Vec<(String, Vec<Diagnostic>)> = Vec::new();
        let ghost given = incoming_of(map@);
        let mut i: usize = 0;
        assert(given.take(0) =~= Seq::empty());
        assert(incoming_of(located@) =~= Seq::empty());
        while i < map.len()
            invariant
                i <= map.len(),
                given == incoming_of(map@),
                incoming_of(located@) == file_entries(given.take(i as int)),
            decreases map.len() - i,
        {
            let ghost before = incoming_of(located@);
            assert(given.take(i + 1).drop_last() =~= given.take(i as int));
            assert(given.take(i + 1).last() == given[i as int]);
            match file_url(map[i].0.as_str()) {
                Some(url) => {
                    let diags = map[i].1.clone();
                    assert(diags@ =~= map[i as int].1@);
                    located.push((url, diags));
                    assert(incoming_of(located@) =~= before.push((url@, diags@)));
                },
                None => {},
            }
            i += 1;
        }
        assert(given.take(map.len() as int) =~= given);
        self.publish(category, located);
    }
}

} // verus!
