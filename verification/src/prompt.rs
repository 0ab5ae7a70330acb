//! The dialog that asks for a path with more songs: how each key edits the
//! path, and when the dialog ends.
use crate::text::{first_line, first_line_of, push_char};
use vstd::prelude::*;
use vstd::string::*;

verus! {

/// A key as the dialog sees it.
#[derive(Debug, Clone, Copy, PartialEq, Eq, Structural)]
pub enum Key {
    Esc,
    Enter,
    Backspace,
    Tab,
    Char(char),
    Other,
}

/// How the dialog stands after a key.
#[derive(Debug, Clone, Copy, PartialEq, Eq, Structural)]
pub enum Outcome {
    /// The dialog stays open.
    Editing,
    /// The user gave up: no path.
    Cancelled,
    /// The user accepted the path as it stands.
    Submitted,
}

/// The path after a key, given the search results shown below it.
pub open spec fn edited(path: Seq<char>, key: Key, results: Seq<char>) -> Seq<char> {
    match key {
        Key::Backspace => if path.len() > 0 {
            path.drop_last()
        } else {
            path
        },
        Key::Tab => match first_line(results) {
            Some(line) => line,
            None => path,
        },
        Key::Char(c) => path.push(c),
        _ => path,
    }
}

/// Whether the dialog goes on or ends after a key.
pub open spec fn outcome_of(key: Key) -> Outcome {
    match key {
        Key::Esc => Outcome::Cancelled,
        Key::Enter => Outcome::Submitted,
        _ => Outcome::Editing,
    }
}

/// The path being edited.
pub struct Prompt {
    path: String,
}

impl View for Prompt {
    type V = Seq<char>;

    closed spec fn view(&self) -> Seq<char> {
        self.path@
    }
}

impl Prompt {
    /// A dialog that starts from `path`.
    pub fn new(path: String) -> (prompt: Prompt)
        ensures
            prompt@ == path@,
    {
        Prompt { path }
    }

    /// The path as it stands.
    pub fn text(&self) -> (text: &str)
        ensures
            text@ == self@,
    {
        self.path.as_str()
    }

    /// Ends the dialog for its path.
    pub fn into_text(self) -> (text: String)
        ensures
            text@ == self@,
    {
        self.path
    }

    /// Applies a key. Escape and Enter end the dialog and leave the path.
    /// Backspace removes the last character, a character key appends its
    /// character, and Tab replaces the path by the first line of `results`
    /// that is not empty, if there is one.
    pub fn on_key(&mut self, key: Key, results: &str) -> (outcome: Outcome)
        ensures
            outcome == outcome_of(key),
            final(self)@ == edited(old(self)@, key, results@),
    {
        match key {
            Key::Esc => Outcome::Cancelled,
            Key::Enter => Outcome::Submitted,
            Key::Backspace => {
                let n: usize = self.path.as_str().unicode_len();
                if n > 0 {
                    let shorter = self.path.as_str().substring_char(0, n - 1).to_owned();
                    self.path = shorter;
                }
                Outcome::Editing
            },
            Key::Tab => {
                match first_line_of(results) {
                    Some(line) => {
                        self.path = line.to_owned();
                    },
                    None => {},
                }
                Outcome::Editing
            },
            Key::Char(c) => {
                push_char(&mut self.path, c);
                Outcome::Editing
            },
            Key::Other => Outcome::Editing,
        }
    }
}

} // verus!
