//! The playback navigator: a pending queue, a history and the now-playing
//! slot, with the transitions that move tracks between them.
//!
//! Both the pending queue and the history are stacks whose top is their last
//! element: the next track to play is the last of the pending queue.
use crate::track::Track;
use vstd::multiset::*;
use vstd::prelude::*;
use vstd::seq_lib::*;

verus! {

/// The navigator's state as plain sequences.
pub struct NavState {
    pub pending: Seq<Track>,
    pub history: Seq<Track>,
    pub now_playing: Option<Track>,
}

impl NavState {
    /// The track in the now-playing slot, as a multiset of at most one.
    pub open spec fn playing(self) -> Multiset<Track> {
        match self.now_playing {
            Some(t) => Multiset::singleton(t),
            None => Multiset::empty(),
        }
    }

    /// Every track the navigator holds, over all three containers.
    pub open spec fn tracks(self) -> Multiset<Track> {
        self.pending.to_multiset().add(self.history.to_multiset()).add(self.playing())
    }

    /// The pending queue together with the now-playing slot.
    pub open spec fn upcoming(self) -> Multiset<Track> {
        self.pending.to_multiset().add(self.playing())
    }

    /// Whether the top of the pending queue can move into the slot.
    pub open spec fn can_pop(self) -> bool {
        self.now_playing is None && self.pending.len() > 0
    }

    /// The top of the pending queue moves into the empty slot.
    pub open spec fn pop_next(self) -> NavState {
        if self.can_pop() {
            NavState {
                pending: self.pending.drop_last(),
                history: self.history,
                now_playing: Some(self.pending.last()),
            }
        } else {
            self
        }
    }

    /// The now-playing track moves onto the history.
    pub open spec fn advance(self) -> NavState {
        match self.now_playing {
            Some(t) => NavState {
                pending: self.pending,
                history: self.history.push(t),
                now_playing: None,
            },
            None => self,
        }
    }

    /// The now-playing track moves back onto the pending queue.
    pub open spec fn requeue(self) -> NavState {
        match self.now_playing {
            Some(t) => NavState {
                pending: self.pending.push(t),
                history: self.history,
                now_playing: None,
            },
            None => self,
        }
    }

    /// The now-playing track goes back onto the pending queue, and the top of
    /// the history on top of it.
    pub open spec fn rewind(self) -> NavState {
        let s = self.requeue();
        if s.history.len() > 0 {
            NavState {
                pending: s.pending.push(s.history.last()),
                history: s.history.drop_last(),
                now_playing: None,
            }
        } else {
            s
        }
    }

    /// The new tracks go below the pending queue, the now-playing track on
    /// top of it.
    pub open spec fn insert_and_continue(self, new_tracks: Seq<Track>) -> NavState {
        NavState {
            pending: new_tracks + self.pending,
            history: self.history,
            now_playing: self.now_playing,
        }.requeue()
    }

    /// The now-playing track leaves the navigator.
    pub open spec fn discard(self) -> NavState {
        NavState { pending: self.pending, history: self.history, now_playing: None }
    }
}

/// Why no track could be moved into the now-playing slot.
#[derive(Debug, Clone, Copy, PartialEq, Eq, Structural)]
pub enum NavError {
    /// The pending queue is empty.
    QueueEmpty,
    /// The slot still holds a track.
    SlotOccupied,
}

/// Rearranges the tracks with `fastrand::shuffle`, which swaps each position
/// with a randomly chosen one at or before it. Which order comes out is left
/// open; the contract claims only that the same tracks are there afterwards.
#[verifier::external_body]
fn shuffle_tracks(tracks: &mut Vec<Track>)
    ensures
        final(tracks)@.to_multiset() == old(tracks)@.to_multiset(),
{
    fastrand::shuffle(tracks.as_mut_slice());
}

/// Owns the pending queue, the history and the now-playing slot.
pub struct Navigator {
    pending: Vec<Track>,
    history: Vec<Track>,
    now_playing: Option<Track>,
}

impl View for Navigator {
    type V = NavState;

    closed spec fn view(&self) -> NavState {
        NavState {
            pending: self.pending@,
            history: self.history@,
            now_playing: self.now_playing,
        }
    }
}

impl Navigator {
    /// A navigator whose pending queue is `pending`, with nothing played yet.
    pub fn new(pending: Vec<Track>) -> (nav: Navigator)
        ensures
            nav@ == (NavState { pending: pending@, history: Seq::empty(), now_playing: None }),
    {
        Navigator { pending, history: Vec::new(), now_playing: None }
    }

    /// The pending queue; its last element plays next.
    pub fn pending(&self) -> (pending: &Vec<Track>)
        ensures
            pending@ == self@.pending,
    {
        &self.pending
    }

    /// The history; its last element was played most recently.
    pub fn history(&self) -> (history: &Vec<Track>)
        ensures
            history@ == self@.history,
    {
        &self.history
    }

    /// The track in the now-playing slot.
    pub fn now_playing(&self) -> (track: Option<&Track>)
        ensures
            match track {
                Some(t) => self@.now_playing == Some(*t),
                None => self@.now_playing is None,
            },
    {
        self.now_playing.as_ref()
    }

    /// Moves the top of the pending queue into the now-playing slot.
    pub fn pop_next(&mut self) -> (res: Result<(), NavError>)
        ensures
            final(self)@ == old(self)@.pop_next(),
            final(self)@.tracks() == old(self)@.tracks(),
            res is Ok <==> old(self)@.can_pop(),
            res == Err::<(), NavError>(NavError::SlotOccupied) <==> old(self)@.now_playing is Some,
            res == Err::<(), NavError>(NavError::QueueEmpty) <==> old(self)@.now_playing is None
                && old(self)@.pending.len() == 0,
    {
        proof {
            lemma_pop_next_keeps_tracks(self@);
        }
        if self.now_playing.is_some() {
            return Err(NavError::SlotOccupied);
        }
        match self.pending.pop() {
            Some(track) => {
                self.now_playing = Some(track);
                Ok(())
            },
            None => Err(NavError::QueueEmpty),
        }
    }

    /// The "next" command: the now-playing track goes onto the history.
    pub fn advance(&mut self)
        ensures
            final(self)@ == old(self)@.advance(),
            final(self)@.tracks() == old(self)@.tracks(),
    {
        proof {
            lemma_advance_keeps_tracks(self@);
        }
        match self.now_playing.take() {
            Some(track) => {
                self.history.push(track);
            },
            None => {},
        }
    }

    /// The "back" command: the now-playing track goes back onto the pending
    /// queue and the most recent track of the history on top of it, so that
    /// it plays next.
    pub fn rewind(&mut self)
        ensures
            final(self)@ == old(self)@.rewind(),
            final(self)@.tracks() == old(self)@.tracks(),
    {
        proof {
            lemma_rewind_keeps_tracks(self@);
        }
        match self.now_playing.take() {
            Some(track) => {
                self.pending.push(track);
            },
            None => {},
        }
        match self.history.pop() {
            Some(previous) => {
                self.pending.push(previous);
            },
            None => {},
        }
    }

    /// The track to load again: the one in the slot. Nothing moves.
    pub fn restart(&self) -> (track: Option<&Track>)
        ensures
            match track {
                Some(t) => self@.now_playing == Some(*t),
                None => self@.now_playing is None,
            },
    {
        self.now_playing.as_ref()
    }

    /// The "add" command: `new_tracks` go below the pending queue, in their
    /// order, and the now-playing track on top of the queue, so that it
    /// resumes at once.
    pub fn insert_and_continue(&mut self, new_tracks: Vec<Track>)
        ensures
            final(self)@ == old(self)@.insert_and_continue(new_tracks@),
            final(self)@.tracks() == old(self)@.tracks().add(new_tracks@.to_multiset()),
    {
        proof {
            lemma_insert_adds_tracks(self@, new_tracks@);
        }
        let mut queue = new_tracks;
        queue.append(&mut self.pending);
        match self.now_playing.take() {
            Some(track) => {
                queue.push(track);
            },
            None => {},
        }
        self.pending = queue;
    }

    /// The "shuffle" command: the now-playing track goes back onto the
    /// pending queue, which is then put in a random order.
    pub fn shuffle(&mut self)
        ensures
            final(self)@.now_playing is None,
            final(self)@.history == old(self)@.history,
            final(self)@.pending.to_multiset() == old(self)@.upcoming(),
            final(self)@.pending.len() == old(self)@.requeue().pending.len(),
            final(self)@.upcoming() == old(self)@.upcoming(),
            final(self)@.tracks() == old(self)@.tracks(),
    {
        broadcast use {to_multiset_build, to_multiset_len};

        match self.now_playing.take() {
            Some(track) => {
                self.pending.push(track);
                assert(self.pending@.to_multiset() =~= old(self)@.upcoming());
            },
            None => {
                assert(self.pending@.to_multiset() =~= old(self)@.upcoming());
            },
        }
        let ghost queued = self.pending@;
        shuffle_tracks(&mut self.pending);
        assert(self.pending@.to_multiset().len() == queued.to_multiset().len());
        assert(self@.upcoming() =~= old(self)@.upcoming());
        assert(self@.tracks() =~= old(self)@.tracks());
    }

    /// Gives up the navigator for its pending queue.
    pub fn into_pending(self) -> (pending: Vec<Track>)
        ensures
            pending@ == self@.pending,
    {
        self.pending
    }

    /// Drops the now-playing track, which could not be loaded: it returns to
    /// neither container.
    pub fn discard(&mut self) -> (dropped: Option<Track>)
        ensures
            final(self)@ == old(self)@.discard(),
            dropped == old(self)@.now_playing,
    {
        self.now_playing.take()
    }
}

/// Moving the top of the pending queue into the slot keeps every track.
pub proof fn lemma_pop_next_keeps_tracks(s: NavState)
    ensures
        s.pop_next().tracks() == s.tracks(),
{
    broadcast use to_multiset_build;

    if s.can_pop() {
        assert(s.pending =~= s.pending.drop_last().push(s.pending.last()));
        assert(s.pop_next().tracks() =~= s.tracks());
    }
}

/// Moving the now-playing track onto the history keeps every track.
pub proof fn lemma_advance_keeps_tracks(s: NavState)
    ensures
        s.advance().tracks() == s.tracks(),
{
    broadcast use to_multiset_build;

    assert(s.advance().tracks() =~= s.tracks());
}

/// Moving the now-playing track back onto the pending queue keeps every
/// track.
pub proof fn lemma_requeue_keeps_tracks(s: NavState)
    ensures
        s.requeue().tracks() == s.tracks(),
        s.requeue().upcoming() == s.upcoming(),
{
    broadcast use to_multiset_build;

    assert(s.requeue().tracks() =~= s.tracks());
    assert(s.requeue().upcoming() =~= s.upcoming());
}

/// Going back keeps every track.
pub proof fn lemma_rewind_keeps_tracks(s: NavState)
    ensures
        s.rewind().tracks() == s.tracks(),
{
    broadcast use to_multiset_build;

    lemma_requeue_keeps_tracks(s);
    let q = s.requeue();
    if q.history.len() > 0 {
        assert(q.history =~= q.history.drop_last().push(q.history.last()));
        assert(s.rewind().tracks() =~= q.tracks());
    }
}

/// Adding tracks keeps every track and adds exactly the new ones.
pub proof fn lemma_insert_adds_tracks(s: NavState, new_tracks: Seq<Track>)
    ensures
        s.insert_and_continue(new_tracks).tracks() == s.tracks().add(new_tracks.to_multiset()),
{
    let widened = NavState {
        pending: new_tracks + s.pending,
        history: s.history,
        now_playing: s.now_playing,
    };
    lemma_multiset_commutative(new_tracks, s.pending);
    lemma_requeue_keeps_tracks(widened);
    assert(widened.tracks() =~= s.tracks().add(new_tracks.to_multiset()));
}

/// One navigation command that moves tracks without adding or dropping any.
pub enum Move {
    PopNext,
    Advance,
    Rewind,
}

/// The state after one move.
pub open spec fn step(s: NavState, m: Move) -> NavState {
    match m {
        Move::PopNext => s.pop_next(),
        Move::Advance => s.advance(),
        Move::Rewind => s.rewind(),
    }
}

/// The state after a sequence of moves, applied first to last.
pub open spec fn after_moves(s: NavState, moves: Seq<Move>) -> NavState
    decreases moves.len(),
{
    if moves.len() == 0 {
        s
    } else {
        step(after_moves(s, moves.drop_last()), moves.last())
    }
}

/// Conservation: whatever sequence of pop-next, next and back commands is
/// applied, the tracks over the pending queue, the history and the
/// now-playing slot stay the same multiset: none is created and none is lost.
pub proof fn lemma_moves_keep_tracks(s: NavState, moves: Seq<Move>)
    ensures
        after_moves(s, moves).tracks() == s.tracks(),
    decreases moves.len(),
{
    if moves.len() > 0 {
        let before = after_moves(s, moves.drop_last());
        lemma_moves_keep_tracks(s, moves.drop_last());
        lemma_pop_next_keeps_tracks(before);
        lemma_advance_keeps_tracks(before);
        lemma_rewind_keeps_tracks(before);
    }
}

/// Round trip: going back right after going on puts the track that was
/// playing on top of the pending queue and restores the history, so that the
/// next pop brings back the state from before going on.
pub proof fn lemma_rewind_undoes_advance(s: NavState)
    requires
        s.now_playing is Some,
    ensures
        s.advance().rewind().pending == s.pending.push(s.now_playing->0),
        s.advance().rewind().history == s.history,
        s.advance().rewind().now_playing is None,
        s.advance().rewind().pop_next() == s,
{
    let t = s.now_playing->0;
    let back = s.advance().rewind();
    assert(s.history.push(t).drop_last() =~= s.history);
    assert(back.pending.drop_last() =~= s.pending);
}

} // verus!
