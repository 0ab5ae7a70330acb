use tuitunes::prompt::{Key, Outcome, Prompt};
use tuitunes::text::first_line_of;

#[test]
fn first_line_skips_empty_lines() {
    assert_eq!(first_line_of("\n\n/m/a.mp3\n/m/b.mp3\n"), Some("/m/a.mp3"));
    assert_eq!(first_line_of("/m/a.mp3"), Some("/m/a.mp3"));
    assert_eq!(first_line_of(" \nx"), Some(" "));
    assert_eq!(first_line_of("\n\n"), None);
    assert_eq!(first_line_of(""), None);
}

#[test]
fn characters_are_appended() {
    let mut prompt = Prompt::new("/m".to_string());
    assert_eq!(prompt.on_key(Key::Char('/'), ""), Outcome::Editing);
    assert_eq!(prompt.on_key(Key::Char('é'), ""), Outcome::Editing);
    assert_eq!(prompt.text(), "/m/é");
}

#[test]
fn backspace_removes_the_last_character() {
    let mut prompt = Prompt::new("/mé".to_string());
    assert_eq!(prompt.on_key(Key::Backspace, ""), Outcome::Editing);
    assert_eq!(prompt.text(), "/m");
    assert_eq!(prompt.on_key(Key::Backspace, ""), Outcome::Editing);
    assert_eq!(prompt.on_key(Key::Backspace, ""), Outcome::Editing);
    assert_eq!(prompt.text(), "");
    assert_eq!(prompt.on_key(Key::Backspace, ""), Outcome::Editing);
    assert_eq!(prompt.text(), "");
}

#[test]
fn tab_takes_the_first_result() {
    let mut prompt = Prompt::new("/m/ro".to_string());
    assert_eq!(prompt.on_key(Key::Tab, "\n/m/rock\n/m/roll\n"), Outcome::Editing);
    assert_eq!(prompt.text(), "/m/rock");
    assert_eq!(prompt.on_key(Key::Tab, "\n"), Outcome::Editing);
    assert_eq!(prompt.text(), "/m/rock");
}

#[test]
fn escape_and_enter_end_the_dialog() {
    let mut prompt = Prompt::new("/m".to_string());
    assert_eq!(prompt.on_key(Key::Esc, "/x"), Outcome::Cancelled);
    assert_eq!(prompt.text(), "/m");
    assert_eq!(prompt.on_key(Key::Enter, "/x"), Outcome::Submitted);
    assert_eq!(prompt.on_key(Key::Other, "/x"), Outcome::Editing);
    assert_eq!(prompt.into_text(), "/m");
}
