//! Telling a listener how far a piece of work has come.

use vstd::prelude::*;

verus! {

/// A listener that follows one piece of work.
pub trait ProgressRunner {
    /// The work has something to say, or has come `increment` items further, or both.
    fn update(&self, message: Option<String>, increment: Option<usize>);
}

/// A listener that can be told of work that starts.
pub trait Progress {
    type Progress: ProgressRunner;

    /// Work named `title` starts, and consists of `total` items.
    fn start(&self, title: String, total: usize) -> Self::Progress;
}

/// The listener that does not listen.
pub struct NoProgress;

impl Progress for NoProgress {
    type Progress = ();

    fn start(&self, _title: String, _total: usize) -> Self::Progress {
        ()
    }
}

impl ProgressRunner for () {
    fn update(&self, _message: Option<String>, _increment: Option<usize>) {
    }
}

/// One thing to tell a listener, as plain values.
pub enum Note {
    Start { title: Seq<char>, total: nat },
    Update { message: Option<Seq<char>>, increment: Option<nat> },
}

/// One thing to tell a listener.
#[derive(Debug, PartialEq, Eq)]
pub enum ProgressNote {
    /// Work named `title` starts, and consists of `total` items.
    Start { title: String, total: usize },
    /// The work has something to say, or has come `increment` items further, or both.
    Update { message: Option<String>, increment: Option<usize> },
}

impl View for ProgressNote {
    type V = Note;

    open spec fn view(&self) -> Note {
        match self {
            ProgressNote::Start { title, total } => Note::Start { title: title@, total: *total as nat },
            ProgressNote::Update { message, increment } => Note::Update {
                message: match message {
                    Some(text) => Some(text@),
                    None => None,
                },
                increment: match increment {
                    Some(count) => Some(*count as nat),
                    None => None,
                },
            },
        }
    }
}

/// What a list of notes looks like to a reader.
pub open spec fn notes_of(notes: Seq<ProgressNote>) -> Seq<Note> {
    Seq::new(notes.len(), |i: int| notes[i]@)
}

/// Whether one of the notes announces a start.
pub open spec fn announces_start(notes: Seq<Note>) -> bool {
    exists|i: int| 0 <= i < notes.len() && #[trigger] notes[i] is Start
}

/// Whether `after` is the follower at hand once `note` was handed to the listener, `before`
/// being the one at hand before.
///
/// A start is handed to the listener itself, and the follower that it answers with is at
/// hand from then on. An update is handed to the follower at hand, which stays; without a
/// follower it is dropped.
pub open spec fn is_step<P: Progress>(
    progress: &P,
    before: Option<P::Progress>,
    note: ProgressNote,
    after: Option<P::Progress>,
) -> bool {
    match note {
        ProgressNote::Start { title, total } => after matches Some(opened) && call_ensures(
            P::start,
            (progress, title, total),
            opened,
        ),
        ProgressNote::Update { message, increment } => after == before && (before matches Some(current)
            ==> call_ensures(<P::Progress as ProgressRunner>::update, (&current, message, increment), ())),
    }
}

/// Whether `followers` are the followers at hand while `notes` are handed to the listener
/// one after the other: the one before the first note, then the one after each note.
pub open spec fn is_told<P: Progress>(
    progress: &P,
    notes: Seq<ProgressNote>,
    followers: Seq<Option<P::Progress>>,
) -> bool {
    &&& followers.len() == notes.len() + 1
    &&& forall|i: int| 0 <= i < notes.len() ==> is_step(progress, followers[i], notes[i], #[trigger] followers[i + 1])
}

/// Hands `notes` to a listener, in order. A start opens a new follower, which takes the
/// place of `runner`; an update goes to the follower at hand, and is dropped where there is
/// none. The follower at hand in the end is returned.
pub fn report<P: Progress>(progress: &P, runner: Option<P::Progress>,
    notes: Vec<ProgressNote>) -> (follower: Option<P::Progress>)
    ensures
        follower.is_some() <==> runner.is_some() || announces_start(notes_of(notes@)),
        exists|followers: Seq<Option<P::Progress>>| #[trigger]
            is_told(progress, notes@, followers) && followers[0] == runner && followers.last() == follower,
{
    let mut follower = runner;
    let mut rest = notes;
    let ghost all = rest@;
    let ghost mut followers: Seq<Option<P::Progress>> = seq![runner];
    let mut handled: usize = 0;
    assert(all.len() == rest.len());
    while rest.len() > 0
        invariant
            all == notes@,
            handled + rest.len() == all.len(),
            all.len() <= usize::MAX,
            rest@ == all.subrange(handled as int, all.len() as int),
            follower.is_some() <==> runner.is_some() || announces_start(notes_of(all.take(handled as int))),
            followers.len() == handled + 1,
            followers[0] == runner,
            followers.last() == follower,
            forall|i: int| 0 <= i < handled ==> is_step(progress, followers[i], all[i], #[trigger] followers[i + 1]),
        decreases rest.len(),
    {
        let ghost before = notes_of(all.take(handled as int));
        let ghost after = notes_of(all.take(handled + 1));
        let ghost earlier = followers;
        let ghost at_hand = follower;
        let note = rest.remove(0);
        assert(note == all[handled as int]);
        assert(after =~= before.push(note@));
        proof {
            if announces_start(before) {
                let i = choose|i: int| 0 <= i < before.len() && #[trigger] before[i] is Start;
                assert(after[i] is Start);
            }
            if announces_start(after) && !(note@ is Start) {
                let i = choose|i: int| 0 <= i < after.len() && #[trigger] after[i] is Start;
                assert(before[i] is Start);
            }
            if note@ is Start {
                assert(after[handled as int] is Start);
            }
        }
        match note {
            ProgressNote::Start { title, total } => {
                follower = Some(progress.start(title, total));
            },
            ProgressNote::Update { message, increment } => {
                match &follower {
                    Some(current) => current.update(message, increment),
                    None => {},
                }
            },
        }
        proof {
            followers = earlier.push(follower);
            assert(is_step(progress, at_hand, all[handled as int], follower));
            assert forall|i: int| 0 <= i < handled + 1 implies is_step(
                progress,
                followers[i],
                all[i],
                #[trigger] followers[i + 1],
            ) by {
                if i < handled {
                    assert(followers[i] == earlier[i]);
                    assert(followers[i + 1] == earlier[i + 1]);
                }
            }
        }
        handled += 1;
    }
    assert(all.take(handled as int) =~= all);
    assert(is_told(progress, notes@, followers));
    follower
}

} // verus!
