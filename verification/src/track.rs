//! Tracks and the rules that derive a display name and a format from a path.
//!
//! A path is a string whose components are separated by `/`. Its file name is
//! what follows the last separator; the last `.` of the file name, unless it
//! is the name's first character, separates the stem from the extension.
use vstd::prelude::*;
use vstd::string::*;

verus! {

/// Position of the last occurrence of `c` in `s`, or -1 if there is none.
pub open spec fn last_index_of(s: Seq<char>, c: char) -> int
    decreases s.len(),
{
    if s.len() == 0 {
        -1
    } else if s.last() == c {
        s.len() - 1
    } else {
        last_index_of(s.drop_last(), c)
    }
}

/// `last_index_of` is the one position that holds `c` with no `c` behind it.
pub proof fn lemma_last_index_of(s: Seq<char>, c: char)
    ensures
        -1 <= last_index_of(s, c) < s.len(),
        last_index_of(s, c) >= 0 ==> s[last_index_of(s, c)] == c,
        forall|j: int| last_index_of(s, c) < j < s.len() ==> s[j] != c,
    decreases s.len(),
{
    if s.len() > 0 && s.last() != c {
        let front = s.drop_last();
        lemma_last_index_of(front, c);
        assert forall|j: int| last_index_of(s, c) < j < s.len() implies s[j] != c by {
            if j < front.len() {
                assert(front[j] == s[j]);
            }
        }
    }
}

/// A position that holds `c` with no `c` behind it is `last_index_of`.
pub proof fn lemma_last_index_of_unique(s: Seq<char>, c: char, i: int)
    requires
        -1 <= i < s.len(),
        i >= 0 ==> s[i] == c,
        forall|j: int| i < j < s.len() ==> s[j] != c,
    ensures
        last_index_of(s, c) == i,
{
    lemma_last_index_of(s, c);
}

/// The part of a path behind its last `/`: the whole path if it has none.
pub open spec fn file_name(path: Seq<char>) -> Seq<char> {
    path.subrange(last_index_of(path, '/') + 1, path.len() as int)
}

/// The file name without its extension.
pub open spec fn file_stem(path: Seq<char>) -> Seq<char> {
    let name = file_name(path);
    let dot = last_index_of(name, '.');
    if dot <= 0 {
        name
    } else {
        name.subrange(0, dot)
    }
}

/// What follows the last `.` of the file name; none if the name has no `.`
/// or only one at its start.
pub open spec fn extension(path: Seq<char>) -> Option<Seq<char>> {
    let name = file_name(path);
    let dot = last_index_of(name, '.');
    if dot <= 0 {
        None
    } else {
        Some(name.subrange(dot + 1, name.len() as int))
    }
}

/// The directory part of a path: what stands before its last `/`. A path
/// without `/` has the empty directory, or the root if it is empty itself; a
/// path whose only `/` is its first character has the root.
pub open spec fn parent(path: Seq<char>) -> Seq<char> {
    let slash = last_index_of(path, '/');
    if slash > 0 {
        path.subrange(0, slash)
    } else if slash == 0 || path.len() == 0 {
        seq!['/']
    } else {
        Seq::empty()
    }
}

/// Finds the last occurrence of `c` in `s`.
pub fn find_last(s: &str, c: char) -> (found: Option<usize>)
    ensures
        match found {
            Some(i) => i as int == last_index_of(s@, c),
            None => last_index_of(s@, c) == -1,
        },
{
    let n: usize = s.unicode_len();
    let mut i: usize = n;
    while i > 0
        invariant
            i <= n,
            n == s@.len(),
            forall|j: int| i <= j < n ==> s@[j] != c,
        decreases i,
    {
        if s.get_char(i - 1) == c {
            proof {
                lemma_last_index_of_unique(s@, c, i - 1);
            }
            return Some(i - 1);
        }
        i -= 1;
    }
    proof {
        lemma_last_index_of_unique(s@, c, -1);
    }
    None
}

/// The file name of `path`, borrowed from it.
pub fn file_name_of(path: &str) -> (name: &str)
    ensures
        name@ == file_name(path@),
{
    let n: usize = path.unicode_len();
    proof {
        lemma_last_index_of(path@, '/');
    }
    match find_last(path, '/') {
        Some(i) => path.substring_char(i + 1, n),
        None => path.substring_char(0, n),
    }
}

/// The directory part of `path`.
pub fn parent_of(path: &str) -> (dir: &str)
    ensures
        dir@ == parent(path@),
{
    proof {
        lemma_last_index_of(path@, '/');
        reveal_strlit("/");
        reveal_strlit("");
        assert("/"@ =~= seq!['/']);
        assert(""@ =~= Seq::<char>::empty());
    }
    match find_last(path, '/') {
        Some(slash) => {
            if slash > 0 {
                path.substring_char(0, slash)
            } else {
                "/"
            }
        },
        None => {
            if path.unicode_len() == 0 {
                "/"
            } else {
                ""
            }
        },
    }
}

/// The file stem of `path`, borrowed from it.
pub fn file_stem_of(path: &str) -> (stem: &str)
    ensures
        stem@ == file_stem(path@),
{
    let name = file_name_of(path);
    proof {
        lemma_last_index_of(name@, '.');
    }
    match find_last(name, '.') {
        Some(dot) => {
            if dot == 0 {
                name
            } else {
                name.substring_char(0, dot)
            }
        },
        None => name,
    }
}

/// The extension of `path`, borrowed from it, if it has one.
pub fn extension_of(path: &str) -> (ext: Option<&str>)
    ensures
        match ext {
            Some(e) => extension(path@) == Some(e@),
            None => extension(path@) is None,
        },
{
    let name = file_name_of(path);
    proof {
        lemma_last_index_of(name@, '.');
    }
    match find_last(name, '.') {
        Some(dot) => {
            if dot == 0 {
                None
            } else {
                let n: usize = name.unicode_len();
                Some(name.substring_char(dot + 1, n))
            }
        },
        None => None,
    }
}

/// One playable audio file: its path, from which the display name derives.
pub struct Track {
    path: String,
}

impl View for Track {
    type V = Seq<char>;

    /// The track's path.
    closed spec fn view(&self) -> Seq<char> {
        self.path@
    }
}

impl Track {
    /// The track at `path`.
    pub fn new(path: String) -> (track: Track)
        ensures
            track@ == path@,
    {
        Track { path }
    }

    /// The path this track was made from.
    pub fn path(&self) -> (path: &str)
        ensures
            path@ == self@,
    {
        self.path.as_str()
    }

    /// Whether the path has a file name, and the track so a display name.
    pub fn has_name(&self) -> (named: bool)
        ensures
            named == (file_name(self@).len() > 0),
    {
        file_name_of(self.path.as_str()).unicode_len() > 0
    }

    /// The display name: the file stem of the path, which has to have a file
    /// name.
    pub fn name(&self) -> (name: &str)
        requires
            file_name(self@).len() > 0,
        ensures
            name@ == file_stem(self@),
            name@.len() > 0,
    {
        proof {
            lemma_last_index_of(file_name(self@), '.');
        }
        file_stem_of(self.path.as_str())
    }
}

} // verus!
