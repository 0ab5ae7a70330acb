use tuitunes::navigator::{NavError, Navigator};
use tuitunes::track::Track;

fn queue_of(paths: &[&str]) -> Vec<Track> {
    paths.iter().map(|p| Track::new(p.to_string())).collect()
}

fn paths_of(tracks: &Vec<Track>) -> Vec<String> {
    tracks.iter().map(|t| t.path().to_string()).collect()
}

fn playing(nav: &Navigator) -> Option<String> {
    nav.now_playing().map(|t| t.path().to_string())
}

fn all_sorted(nav: &Navigator) -> Vec<String> {
    let mut all = paths_of(nav.pending());
    all.extend(paths_of(nav.history()));
    all.extend(playing(nav));
    all.sort();
    all
}

#[test]
fn new_navigator_has_nothing_playing() {
    let nav = Navigator::new(queue_of(&["a.mp3", "b.mp3"]));
    assert_eq!(paths_of(nav.pending()), vec!["a.mp3", "b.mp3"]);
    assert!(nav.history().is_empty());
    assert!(nav.now_playing().is_none());
    assert!(nav.restart().is_none());
}

#[test]
fn pop_advance_rewind_scenario() {
    let mut nav = Navigator::new(queue_of(&["A", "B", "C"]));
    assert_eq!(nav.pop_next(), Ok(()));
    assert_eq!(playing(&nav), Some("C".to_string()));

    nav.advance();
    assert_eq!(paths_of(nav.history()), vec!["C"]);
    assert_eq!(paths_of(nav.pending()), vec!["A", "B"]);
    assert_eq!(playing(&nav), None);

    assert_eq!(nav.pop_next(), Ok(()));
    assert_eq!(playing(&nav), Some("B".to_string()));

    nav.rewind();
    assert_eq!(paths_of(nav.pending()), vec!["A", "B", "C"]);
    assert!(nav.history().is_empty());
    assert_eq!(playing(&nav), None);

    assert_eq!(nav.pop_next(), Ok(()));
    assert_eq!(playing(&nav), Some("C".to_string()));
    assert_eq!(paths_of(nav.pending()), vec!["A", "B"]);
}

#[test]
fn pop_next_on_empty_queue_fails() {
    let mut nav = Navigator::new(Vec::new());
    assert_eq!(nav.pop_next(), Err(NavError::QueueEmpty));
    assert!(nav.now_playing().is_none());
}

#[test]
fn pop_next_with_occupied_slot_fails_and_keeps_state() {
    let mut nav = Navigator::new(queue_of(&["a", "b"]));
    assert_eq!(nav.pop_next(), Ok(()));
    assert_eq!(nav.pop_next(), Err(NavError::SlotOccupied));
    assert_eq!(playing(&nav), Some("b".to_string()));
    assert_eq!(paths_of(nav.pending()), vec!["a"]);
}

#[test]
fn pop_next_of_last_track_then_empty() {
    let mut nav = Navigator::new(queue_of(&["only"]));
    assert_eq!(nav.pop_next(), Ok(()));
    nav.advance();
    assert_eq!(nav.pop_next(), Err(NavError::QueueEmpty));
    assert_eq!(paths_of(nav.history()), vec!["only"]);
}

#[test]
fn advance_without_track_changes_nothing() {
    let mut nav = Navigator::new(queue_of(&["a"]));
    nav.advance();
    assert_eq!(paths_of(nav.pending()), vec!["a"]);
    assert!(nav.history().is_empty());
}

#[test]
fn rewind_with_empty_history_requeues_current() {
    let mut nav = Navigator::new(queue_of(&["a", "b"]));
    assert_eq!(nav.pop_next(), Ok(()));
    nav.rewind();
    assert_eq!(paths_of(nav.pending()), vec!["a", "b"]);
    assert!(nav.history().is_empty());
    assert_eq!(playing(&nav), None);
}

#[test]
fn rewind_after_advance_restores_the_track() {
    let mut nav = Navigator::new(queue_of(&["a", "b", "c", "d"]));
    assert_eq!(nav.pop_next(), Ok(()));
    nav.advance();
    assert_eq!(nav.pop_next(), Ok(()));
    let before_pending = paths_of(nav.pending());
    let before_history = paths_of(nav.history());
    let before_playing = playing(&nav);
    assert_eq!(before_playing, Some("c".to_string()));

    nav.advance();
    nav.rewind();
    assert_eq!(nav.pop_next(), Ok(()));

    assert_eq!(playing(&nav), before_playing);
    assert_eq!(paths_of(nav.pending()), before_pending);
    assert_eq!(paths_of(nav.history()), before_history);
}

#[test]
fn moves_keep_every_track() {
    let mut nav = Navigator::new(queue_of(&["a", "b", "c", "d", "e"]));
    let all = all_sorted(&nav);
    let moves: [u8; 14] = [0, 1, 0, 1, 0, 2, 0, 2, 2, 0, 1, 1, 2, 0];
    for m in moves {
        match m {
            0 => {
                let _ = nav.pop_next();
            }
            1 => nav.advance(),
            _ => nav.rewind(),
        }
        assert_eq!(all_sorted(&nav), all);
    }
}

#[test]
fn restart_names_the_current_track_and_moves_nothing() {
    let mut nav = Navigator::new(queue_of(&["a", "b"]));
    assert_eq!(nav.pop_next(), Ok(()));
    assert_eq!(nav.restart().map(|t| t.path().to_string()), Some("b".to_string()));
    assert_eq!(playing(&nav), Some("b".to_string()));
    assert_eq!(paths_of(nav.pending()), vec!["a"]);
    assert!(nav.history().is_empty());
}

#[test]
fn insert_and_continue_puts_new_tracks_below_and_current_on_top() {
    let mut nav = Navigator::new(queue_of(&["a", "b", "c"]));
    assert_eq!(nav.pop_next(), Ok(()));
    nav.insert_and_continue(queue_of(&["y", "x"]));
    assert_eq!(paths_of(nav.pending()), vec!["y", "x", "a", "b", "c"]);
    assert_eq!(playing(&nav), None);
    assert_eq!(nav.pop_next(), Ok(()));
    assert_eq!(playing(&nav), Some("c".to_string()));
}

#[test]
fn insert_and_continue_without_current_track() {
    let mut nav = Navigator::new(queue_of(&["a"]));
    nav.insert_and_continue(queue_of(&["x"]));
    assert_eq!(paths_of(nav.pending()), vec!["x", "a"]);
}

#[test]
fn shuffle_keeps_the_tracks_of_queue_and_slot() {
    let mut nav = Navigator::new(queue_of(&["a", "b", "c", "d", "e", "f"]));
    assert_eq!(nav.pop_next(), Ok(()));
    nav.advance();
    assert_eq!(nav.pop_next(), Ok(()));
    let all = all_sorted(&nav);
    nav.shuffle();
    assert_eq!(playing(&nav), None);
    assert_eq!(paths_of(nav.history()), vec!["f"]);
    let mut queued = paths_of(nav.pending());
    queued.sort();
    assert_eq!(queued, vec!["a", "b", "c", "d", "e"]);
    assert_eq!(all_sorted(&nav), all);
}

#[test]
fn shuffle_changes_the_order_of_a_long_queue() {
    let names: Vec<String> = (0..200).map(|i: u32| format!("track{:03}.mp3", i)).collect();
    let tracks: Vec<Track> = names.iter().map(|n| Track::new(n.clone())).collect();
    let mut nav = Navigator::new(tracks);
    nav.shuffle();
    let shuffled = paths_of(nav.pending());
    assert_eq!(shuffled.len(), 200);
    assert_ne!(shuffled, names);
    let mut sorted = shuffled.clone();
    sorted.sort();
    assert_eq!(sorted, names);
}

#[test]
fn discard_drops_the_current_track() {
    let mut nav = Navigator::new(queue_of(&["a", "b"]));
    assert_eq!(nav.pop_next(), Ok(()));
    let dropped = nav.discard();
    assert_eq!(dropped.map(|t| t.path().to_string()), Some("b".to_string()));
    assert_eq!(playing(&nav), None);
    assert_eq!(paths_of(nav.pending()), vec!["a"]);
    assert!(nav.history().is_empty());
    assert!(nav.discard().is_none());
}

#[test]
fn into_pending_hands_out_the_queue() {
    let mut nav = Navigator::new(queue_of(&["a", "b", "c"]));
    assert_eq!(nav.pop_next(), Ok(()));
    assert_eq!(paths_of(&nav.into_pending()), vec!["a", "b"]);
}
