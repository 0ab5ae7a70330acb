//! The decisions of the session loop: what a key stands for, what a command
//! does to the queue and to playback, and when a tick is due. The loop itself,
//! which draws, waits for keys and drives the audio output, lives with the
//! caller: it reports what happened and carries out the action it is told.
use crate::navigator::{NavState, Navigator};
use crate::track::Track;
use vstd::prelude::*;

verus! {

/// What the user can ask for with a key.
#[derive(Debug, Clone, Copy, PartialEq, Eq, Structural)]
pub enum Command {
    Quit,
    Next,
    Back,
    TogglePause,
    Restart,
    AddSongs,
    Shuffle,
}

/// What the loop has to do after an event.
#[derive(Debug, Clone, Copy, PartialEq, Eq, Structural)]
pub enum Action {
    /// Nothing: go on with the current track.
    Continue,
    /// Leave the loop.
    Quit,
    /// Stop the current output and load the next track of the queue.
    LoadNext,
    /// Pause the output.
    Pause,
    /// Resume the output and start a new tick.
    Resume,
    /// Stop the output and load the now-playing track again.
    Reload,
    /// Pause the output and ask the user for a path with more songs.
    AskForSongs,
}

/// The command that a key stands for.
pub open spec fn command_of(key: char) -> Option<Command> {
    if key == 'q' {
        Some(Command::Quit)
    } else if key == 'n' {
        Some(Command::Next)
    } else if key == 'b' {
        Some(Command::Back)
    } else if key == 'p' {
        Some(Command::TogglePause)
    } else if key == 'r' {
        Some(Command::Restart)
    } else if key == 'a' {
        Some(Command::AddSongs)
    } else if key == 's' {
        Some(Command::Shuffle)
    } else {
        None
    }
}

/// The command that a key stands for, if any.
pub fn command_for_key(key: char) -> (command: Option<Command>)
    ensures
        command == command_of(key),
{
    if key == 'q' {
        Some(Command::Quit)
    } else if key == 'n' {
        Some(Command::Next)
    } else if key == 'b' {
        Some(Command::Back)
    } else if key == 'p' {
        Some(Command::TogglePause)
    } else if key == 'r' {
        Some(Command::Restart)
    } else if key == 'a' {
        Some(Command::AddSongs)
    } else if key == 's' {
        Some(Command::Shuffle)
    } else {
        None
    }
}

/// How long to wait for a key, in milliseconds: what is left of the tick,
/// and nothing once the tick is over.
pub fn poll_timeout(tick_rate_ms: u64, since_tick_ms: u64) -> (timeout: u64)
    ensures
        since_tick_ms >= tick_rate_ms ==> timeout == 0,
        since_tick_ms < tick_rate_ms ==> timeout == tick_rate_ms - since_tick_ms,
{
    if since_tick_ms >= tick_rate_ms {
        0
    } else {
        tick_rate_ms - since_tick_ms
    }
}

/// Whether the analyzer is to sample now: playback is not paused and a whole
/// tick has passed since it last did.
pub fn sampling_due(paused: bool, tick_rate_ms: u64, since_tick_ms: u64) -> (due: bool)
    ensures
        due == (!paused && since_tick_ms >= tick_rate_ms),
{
    !paused && since_tick_ms >= tick_rate_ms
}

/// The session's state as plain values.
pub struct SessionState {
    pub nav: NavState,
    pub paused: bool,
}

impl SessionState {
    /// What the loop is told to do for a command.
    pub open spec fn action_for(self, command: Command) -> Action {
        match command {
            Command::Quit => Action::Quit,
            Command::Next | Command::Back | Command::Shuffle => Action::LoadNext,
            Command::TogglePause => if self.paused {
                Action::Resume
            } else {
                Action::Pause
            },
            Command::Restart => Action::Reload,
            Command::AddSongs => Action::AskForSongs,
        }
    }

    /// Whether playback is paused after a command.
    pub open spec fn paused_after(self, command: Command) -> bool {
        match command {
            Command::TogglePause => !self.paused,
            Command::AddSongs => true,
            Command::Restart => false,
            _ => self.paused,
        }
    }

    /// The navigator after a command; for shuffling, before the pending
    /// queue is put in its new order, which is not determined.
    pub open spec fn nav_after(self, command: Command) -> NavState {
        match command {
            Command::Next => self.nav.advance(),
            Command::Back => self.nav.rewind(),
            Command::Shuffle => self.nav.requeue(),
            _ => self.nav,
        }
    }
}

/// The navigator and the playback state that the loop's decisions rest on.
pub struct Session {
    navigator: Navigator,
    paused: bool,
}

impl View for Session {
    type V = SessionState;

    closed spec fn view(&self) -> SessionState {
        SessionState { nav: self.navigator@, paused: self.paused }
    }
}

impl Session {
    /// A session over `queue`, with nothing loaded and playback not paused.
    pub fn new(queue: Vec<Track>) -> (session: Session)
        ensures
            session@.nav == (NavState {
                pending: queue@,
                history: Seq::empty(),
                now_playing: None,
            }),
            !session@.paused,
    {
        Session { navigator: Navigator::new(queue), paused: false }
    }

    /// The navigator, to read the queue, the history and the slot.
    pub fn navigator(&self) -> (navigator: &Navigator)
        ensures
            navigator@ == self@.nav,
    {
        &self.navigator
    }

    /// Whether playback is paused.
    pub fn is_paused(&self) -> (paused: bool)
        ensures
            paused == self@.paused,
    {
        self.paused
    }

    /// Picks the track to load: the one in the slot, or else the top of the
    /// pending queue, which moves into the slot. `None` means that the queue
    /// is empty too and the user has to be asked for more songs.
    pub fn next_track(&mut self) -> (track: Option<&Track>)
        ensures
            final(self)@.paused == old(self)@.paused,
            final(self)@.nav == old(self)@.nav.pop_next(),
            final(self)@.nav.tracks() == old(self)@.nav.tracks(),
            match track {
                Some(t) => final(self)@.nav.now_playing == Some(*t),
                None => old(self)@.nav.now_playing is None && old(self)@.nav.pending.len() == 0,
            },
    {
        let _ = self.navigator.pop_next();
        self.navigator.now_playing()
    }

    /// The track in the slot was loaded and its output started: playback is
    /// not paused.
    pub fn track_loaded(&mut self)
        ensures
            final(self)@.nav == old(self)@.nav,
            !final(self)@.paused,
    {
        self.paused = false;
    }

    /// The track in the slot could not be loaded: it is dropped, and the
    /// loop goes on with the next.
    pub fn load_failed(&mut self) -> (action: Action)
        ensures
            action == Action::LoadNext,
            final(self)@.nav == old(self)@.nav.discard(),
            final(self)@.paused == old(self)@.paused,
    {
        let _ = self.navigator.discard();
        Action::LoadNext
    }

    /// Applies a command of the user. Commands that move the now-playing
    /// track away end its playback; pausing, resuming and restarting leave
    /// the queue as it is.
    pub fn handle(&mut self, command: Command) -> (action: Action)
        ensures
            action == old(self)@.action_for(command),
            action == Action::LoadNext ==> final(self)@.nav.now_playing is None,
            final(self)@.paused == old(self)@.paused_after(command),
            final(self)@.nav.tracks() == old(self)@.nav.tracks(),
            command != Command::Shuffle ==> final(self)@.nav == old(self)@.nav_after(command),
            command == Command::Shuffle ==> {
                &&& final(self)@.nav.now_playing is None
                &&& final(self)@.nav.history == old(self)@.nav.history
                &&& final(self)@.nav.pending.to_multiset() == old(self)@.nav.upcoming()
            },
    {
        match command {
            Command::Quit => Action::Quit,
            Command::Next => {
                self.navigator.advance();
                Action::LoadNext
            },
            Command::Back => {
                self.navigator.rewind();
                Action::LoadNext
            },
            Command::TogglePause => {
                if self.paused {
                    self.paused = false;
                    Action::Resume
                } else {
                    self.paused = true;
                    Action::Pause
                }
            },
            Command::Restart => {
                self.paused = false;
                Action::Reload
            },
            Command::AddSongs => {
                self.paused = true;
                Action::AskForSongs
            },
            Command::Shuffle => {
                self.navigator.shuffle();
                Action::LoadNext
            },
        }
    }

    /// The answer to `Action::AskForSongs`. With new tracks, they go below
    /// the pending queue and the now-playing track on top of it, and the loop
    /// loads the next track, which is that one. Without, playback resumes
    /// unchanged.
    pub fn songs_added(&mut self, new_tracks: Option<Vec<Track>>) -> (action: Action)
        ensures
            match new_tracks {
                Some(tracks) => {
                    &&& action == Action::LoadNext
                    &&& final(self)@.nav == old(self)@.nav.insert_and_continue(tracks@)
                    &&& final(self)@.paused == old(self)@.paused
                },
                None => {
                    &&& action == Action::Resume
                    &&& final(self)@.nav == old(self)@.nav
                    &&& !final(self)@.paused
                },
            },
    {
        match new_tracks {
            Some(tracks) => {
                self.navigator.insert_and_continue(tracks);
                Action::LoadNext
            },
            None => {
                self.paused = false;
                Action::Resume
            },
        }
    }

    /// The output has played the track to its end: it goes onto the history
    /// as after the "next" command.
    pub fn track_finished(&mut self) -> (action: Action)
        ensures
            action == Action::LoadNext,
            final(self)@.nav == old(self)@.nav.advance(),
            final(self)@.paused == old(self)@.paused,
    {
        self.navigator.advance();
        Action::LoadNext
    }

    /// Ends the session and hands out the pending queue, to be saved for the
    /// next one.
    pub fn into_pending(self) -> (pending: Vec<Track>)
        ensures
            pending@ == self@.nav.pending,
    {
        self.navigator.into_pending()
    }
}

} // verus!
