use tuitunes::session::{command_for_key, poll_timeout, sampling_due, Action, Command, Session};
use tuitunes::track::Track;

fn tracks_of(paths: &[&str]) -> Vec<Track> {
    paths.iter().map(|p| Track::new(p.to_string())).collect()
}

fn pending_of(session: &Session) -> Vec<String> {
    session.navigator().pending().iter().map(|t| t.path().to_string()).collect()
}

fn history_of(session: &Session) -> Vec<String> {
    session.navigator().history().iter().map(|t| t.path().to_string()).collect()
}

fn current_of(session: &Session) -> Option<String> {
    session.navigator().now_playing().map(|t| t.path().to_string())
}

fn started(paths: &[&str]) -> Session {
    let mut session = Session::new(tracks_of(paths));
    assert!(session.next_track().is_some());
    session.track_loaded();
    session
}

#[test]
fn keys_map_to_commands() {
    assert_eq!(command_for_key('q'), Some(Command::Quit));
    assert_eq!(command_for_key('n'), Some(Command::Next));
    assert_eq!(command_for_key('b'), Some(Command::Back));
    assert_eq!(command_for_key('p'), Some(Command::TogglePause));
    assert_eq!(command_for_key('r'), Some(Command::Restart));
    assert_eq!(command_for_key('a'), Some(Command::AddSongs));
    assert_eq!(command_for_key('s'), Some(Command::Shuffle));
    assert_eq!(command_for_key('x'), None);
    assert_eq!(command_for_key('Q'), None);
}

#[test]
fn poll_timeout_is_the_rest_of_the_tick() {
    assert_eq!(poll_timeout(50, 0), 50);
    assert_eq!(poll_timeout(50, 20), 30);
    assert_eq!(poll_timeout(50, 50), 0);
    assert_eq!(poll_timeout(50, 5000), 0);
}

#[test]
fn sampling_is_due_after_a_tick_unless_paused() {
    assert!(sampling_due(false, 50, 50));
    assert!(sampling_due(false, 50, 51));
    assert!(!sampling_due(false, 50, 49));
    assert!(!sampling_due(true, 50, 500));
}

#[test]
fn next_track_pops_the_queue() {
    let mut session = Session::new(tracks_of(&["a", "b"]));
    assert!(!session.is_paused());
    assert_eq!(session.next_track().map(|t| t.path().to_string()), Some("b".to_string()));
    assert_eq!(pending_of(&session), vec!["a"]);
    // The slot is occupied: the same track is named again.
    assert_eq!(session.next_track().map(|t| t.path().to_string()), Some("b".to_string()));
    assert_eq!(pending_of(&session), vec!["a"]);
}

#[test]
fn next_track_on_empty_queue_asks_for_more() {
    let mut session = Session::new(Vec::new());
    assert!(session.next_track().is_none());
}

#[test]
fn load_failure_drops_the_track() {
    let mut session = Session::new(tracks_of(&["a", "bad.txt"]));
    assert!(session.next_track().is_some());
    assert_eq!(session.load_failed(), Action::LoadNext);
    assert_eq!(current_of(&session), None);
    assert_eq!(pending_of(&session), vec!["a"]);
    assert!(history_of(&session).is_empty());
}

#[test]
fn quit_changes_nothing() {
    let mut session = started(&["a", "b"]);
    assert_eq!(session.handle(Command::Quit), Action::Quit);
    assert_eq!(current_of(&session), Some("b".to_string()));
    assert_eq!(pending_of(&session), vec!["a"]);
}

#[test]
fn next_moves_the_track_to_the_history() {
    let mut session = started(&["a", "b"]);
    assert_eq!(session.handle(Command::Next), Action::LoadNext);
    assert_eq!(current_of(&session), None);
    assert_eq!(history_of(&session), vec!["b"]);
    assert_eq!(pending_of(&session), vec!["a"]);
}

#[test]
fn back_requeues_current_and_previous() {
    let mut session = started(&["a", "b", "c"]);
    assert_eq!(session.handle(Command::Next), Action::LoadNext);
    assert!(session.next_track().is_some());
    assert_eq!(session.handle(Command::Back), Action::LoadNext);
    assert_eq!(pending_of(&session), vec!["a", "b", "c"]);
    assert!(history_of(&session).is_empty());
}

#[test]
fn pause_toggles() {
    let mut session = started(&["a"]);
    assert_eq!(session.handle(Command::TogglePause), Action::Pause);
    assert!(session.is_paused());
    assert_eq!(session.handle(Command::TogglePause), Action::Resume);
    assert!(!session.is_paused());
    assert_eq!(current_of(&session), Some("a".to_string()));
}

#[test]
fn restart_reloads_and_unpauses() {
    let mut session = started(&["a", "b"]);
    assert_eq!(session.handle(Command::TogglePause), Action::Pause);
    assert_eq!(session.handle(Command::Restart), Action::Reload);
    assert!(!session.is_paused());
    assert_eq!(current_of(&session), Some("b".to_string()));
    assert_eq!(pending_of(&session), vec!["a"]);
}

#[test]
fn add_songs_accepted() {
    let mut session = started(&["a", "b"]);
    assert_eq!(session.handle(Command::AddSongs), Action::AskForSongs);
    assert!(session.is_paused());
    assert_eq!(session.songs_added(Some(tracks_of(&["y", "x"]))), Action::LoadNext);
    assert_eq!(pending_of(&session), vec!["y", "x", "a", "b"]);
    assert_eq!(current_of(&session), None);
    assert_eq!(session.next_track().map(|t| t.path().to_string()), Some("b".to_string()));
}

#[test]
fn add_songs_cancelled() {
    let mut session = started(&["a", "b"]);
    assert_eq!(session.handle(Command::AddSongs), Action::AskForSongs);
    assert_eq!(session.songs_added(None), Action::Resume);
    assert!(!session.is_paused());
    assert_eq!(current_of(&session), Some("b".to_string()));
    assert_eq!(pending_of(&session), vec!["a"]);
}

#[test]
fn shuffle_command_requeues_everything_upcoming() {
    let mut session = started(&["a", "b", "c"]);
    assert_eq!(session.handle(Command::Shuffle), Action::LoadNext);
    assert_eq!(current_of(&session), None);
    let mut queued = pending_of(&session);
    queued.sort();
    assert_eq!(queued, vec!["a", "b", "c"]);
}

#[test]
fn finished_track_goes_to_the_history() {
    let mut session = started(&["a", "b"]);
    assert_eq!(session.track_finished(), Action::LoadNext);
    assert_eq!(history_of(&session), vec!["b"]);
    assert_eq!(current_of(&session), None);
}

#[test]
fn into_pending_gives_what_is_left() {
    let mut session = started(&["a", "b", "c"]);
    assert_eq!(session.handle(Command::Next), Action::LoadNext);
    let left: Vec<String> = session.into_pending().iter().map(|t| t.path().to_string()).collect();
    assert_eq!(left, vec!["a", "b"]);
}
