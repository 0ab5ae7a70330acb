//! The saved queue: a text with one path per line, written when a session
//! ends with tracks still pending and read when the next one starts without
//! a path.
use crate::text::push_char;
use crate::track::Track;
use vstd::prelude::*;
use vstd::string::*;

verus! {

/// Whether a character is white space.
pub open spec fn is_space(c: char) -> bool {
    let code = c as u32;
    ||| 0x09 <= code <= 0x0D
    ||| code == 0x20
    ||| code == 0x85
    ||| code == 0xA0
    ||| code == 0x1680
    ||| 0x2000 <= code <= 0x200A
    ||| code == 0x2028
    ||| code == 0x2029
    ||| code == 0x202F
    ||| code == 0x205F
    ||| code == 0x3000
}

/// Whether a line holds nothing but white space.
pub open spec fn is_blank(line: Seq<char>) -> bool {
    forall|i: int| 0 <= i < line.len() ==> is_space(#[trigger] line[i])
}

/// The lines of a text: what stands between its line breaks, before the
/// first and behind the last. A text without line break is one line.
pub open spec fn split_lines(text: Seq<char>) -> Seq<Seq<char>>
    decreases text.len(),
{
    if text.len() == 0 {
        seq![Seq::empty()]
    } else {
        let before = split_lines(text.drop_last());
        if text.last() == '\n' {
            before.push(Seq::empty())
        } else {
            before.drop_last().push(before.last().push(text.last()))
        }
    }
}

/// The lines that are not blank, in their order.
pub open spec fn filled(lines: Seq<Seq<char>>) -> Seq<Seq<char>>
    decreases lines.len(),
{
    if lines.len() == 0 {
        Seq::empty()
    } else if is_blank(lines.last()) {
        filled(lines.drop_last())
    } else {
        filled(lines.drop_last()).push(lines.last())
    }
}

/// The paths that a saved queue holds: its lines but the blank ones.
pub open spec fn saved_paths(text: Seq<char>) -> Seq<Seq<char>> {
    filled(split_lines(text))
}

/// The paths joined by line breaks.
pub open spec fn joined(paths: Seq<Seq<char>>) -> Seq<char>
    decreases paths.len(),
{
    if paths.len() == 0 {
        Seq::empty()
    } else if paths.len() == 1 {
        paths[0]
    } else {
        joined(paths.drop_last()) + seq!['\n'] + paths.last()
    }
}

/// Whether a path can stand on a line of its own: it holds no line break
/// and is not blank.
pub open spec fn is_line(path: Seq<char>) -> bool {
    &&& !is_blank(path)
    &&& forall|i: int| 0 <= i < path.len() ==> path[i] != '\n'
}

/// A text has at least one line.
proof fn lemma_split_lines_len(text: Seq<char>)
    ensures
        split_lines(text).len() >= 1,
    decreases text.len(),
{
    if text.len() > 0 {
        lemma_split_lines_len(text.drop_last());
    }
}

/// Characters other than line breaks behind a text lengthen its last line.
proof fn lemma_split_lines_append(text: Seq<char>, tail: Seq<char>)
    requires
        forall|i: int| 0 <= i < tail.len() ==> tail[i] != '\n',
    ensures
        split_lines(text + tail) == split_lines(text).drop_last().push(
            split_lines(text).last() + tail,
        ),
    decreases tail.len(),
{
    lemma_split_lines_len(text);
    let lines = split_lines(text);
    if tail.len() == 0 {
        assert(text + tail =~= text);
        assert(lines.last() + tail =~= lines.last());
        assert(lines =~= lines.drop_last().push(lines.last()));
    } else {
        let front = tail.drop_last();
        lemma_split_lines_append(text, front);
        assert((text + tail).drop_last() =~= text + front);
        assert((text + tail).last() == tail.last());
        let before = split_lines(text + front);
        assert(before.drop_last() =~= lines.drop_last());
        assert(before.last().push(tail.last()) =~= lines.last() + tail);
    }
}

/// The lines of paths joined by line breaks are the paths.
proof fn lemma_split_joined(paths: Seq<Seq<char>>)
    requires
        paths.len() >= 1,
        forall|k: int| 0 <= k < paths.len() ==> is_line(#[trigger] paths[k]),
    ensures
        split_lines(joined(paths)) == paths,
    decreases paths.len(),
{
    let none = Seq::<char>::empty();
    if paths.len() == 1 {
        assert(is_line(paths[0]));
        lemma_split_lines_append(none, paths[0]);
        assert(none + paths[0] =~= paths[0]);
        assert(split_lines(none) =~= seq![none]);
        assert(split_lines(joined(paths)) =~= paths);
    } else {
        let front = paths.drop_last();
        assert forall|k: int| 0 <= k < front.len() implies is_line(#[trigger] front[k]) by {
            assert(front[k] == paths[k]);
        }
        lemma_split_joined(front);
        let text = joined(front) + seq!['\n'];
        assert(text.drop_last() =~= joined(front));
        assert(split_lines(text) =~= front.push(none));
        assert(is_line(paths[paths.len() - 1]));
        lemma_split_lines_append(text, paths.last());
        assert(none + paths.last() =~= paths.last());
        assert(split_lines(joined(paths)) =~= paths);
    }
}

/// Lines of which none is blank all count.
proof fn lemma_filled_keeps_all(lines: Seq<Seq<char>>)
    requires
        forall|k: int| 0 <= k < lines.len() ==> !is_blank(#[trigger] lines[k]),
    ensures
        filled(lines) == lines,
    decreases lines.len(),
{
    if lines.len() > 0 {
        let front = lines.drop_last();
        assert forall|k: int| 0 <= k < front.len() implies !is_blank(#[trigger] front[k]) by {
            assert(front[k] == lines[k]);
        }
        lemma_filled_keeps_all(front);
        assert(!is_blank(lines[lines.len() - 1]));
        assert(filled(lines) =~= lines);
    } else {
        assert(filled(lines) =~= lines);
    }
}

/// Reading undoes writing: the text that saves paths, none of which is
/// blank or holds a line break, reads back as those paths in their order.
pub proof fn lemma_saved_queue_reads_back(paths: Seq<Seq<char>>)
    requires
        forall|k: int| 0 <= k < paths.len() ==> is_line(#[trigger] paths[k]),
    ensures
        saved_paths(joined(paths)) == paths,
{
    if paths.len() == 0 {
        let none = Seq::<char>::empty();
        assert(split_lines(none) =~= seq![none]);
        assert(is_blank(none));
        assert(joined(paths) =~= none);
        assert(seq![none].last() == none);
        assert(seq![none].drop_last() =~= Seq::<Seq<char>>::empty());
        assert(filled(Seq::<Seq<char>>::empty()) =~= Seq::<Seq<char>>::empty());
        assert(filled(seq![none]) == filled(seq![none].drop_last()));
        assert(saved_paths(joined(paths)) =~= paths);
    } else {
        lemma_split_joined(paths);
        assert forall|k: int| 0 <= k < paths.len() implies !is_blank(#[trigger] paths[k]) by {
            assert(is_line(paths[k]));
        }
        lemma_filled_keeps_all(paths);
    }
}

/// Whether `c` is white space.
pub fn is_space_char(c: char) -> (space: bool)
    ensures
        space == is_space(c),
{
    let code: u32 = c as u32;
    (0x09 <= code && code <= 0x0D) || code == 0x20 || code == 0x85 || code == 0xA0 || code
        == 0x1680 || (0x2000 <= code && code <= 0x200A) || code == 0x2028 || code == 0x2029
        || code == 0x202F || code == 0x205F || code == 0x3000
}

/// Reads a saved queue: every line that is not blank is a track's path, the
/// first line first.
pub fn parse_queue(text: &str) -> (queue: Vec<Track>)
    ensures
        queue.len() == saved_paths(text@).len(),
        forall|k: int| 0 <= k < queue.len() ==> queue[k]@ == saved_paths(text@)[k],
{
    let mut queue: Vec<Track> = Vec::new();
    let mut line: String = String::new();
    let mut blank: bool = true;
    proof {
        assert(text@.take(0) =~= Seq::<char>::empty());
        assert(split_lines(text@.take(0)).drop_last() =~= Seq::<Seq<char>>::empty());
    }
    for c in it: text.chars()
        invariant
            it.seq() == text@,
            split_lines(text@.take(it.index() as int)).len() >= 1,
            split_lines(text@.take(it.index() as int)).last() == line@,
            blank == is_blank(line@),
            queue.len() == filled(split_lines(text@.take(it.index() as int)).drop_last()).len(),
            forall|k: int|
                0 <= k < queue.len() ==> queue[k]@ == filled(
                    split_lines(text@.take(it.index() as int)).drop_last(),
                )[k],
    {
        proof {
            let i = it.index() as int;
            let seen = text@.take(i);
            let next = text@.take(i + 1);
            assert(next.drop_last() =~= seen);
            assert(next.last() == c);
            if c == '\n' {
                assert(split_lines(next).drop_last() =~= split_lines(seen));
            } else {
                assert(split_lines(next).drop_last() =~= split_lines(seen).drop_last());
                assert(is_blank(line@.push(c)) == (is_blank(line@) && is_space(c))) by {
                    if is_blank(line@.push(c)) {
                        assert(line@.push(c)[line@.len() as int] == c);
                        assert forall|j: int| 0 <= j < line@.len() implies is_space(
                            #[trigger] line@[j],
                        ) by {
                            assert(line@.push(c)[j] == line@[j]);
                        }
                    }
                }
            }
        }
        if c == '\n' {
            if !blank {
                queue.push(Track::new(line));
            }
            line = String::new();
            blank = true;
        } else {
            push_char(&mut line, c);
            blank = blank && is_space_char(c);
        }
    }
    proof {
        assert(text@.take(text@.len() as int) =~= text@);
        let lines = split_lines(text@);
        assert(lines =~= lines.drop_last().push(lines.last()));
    }
    if !blank {
        queue.push(Track::new(line));
    }
    queue
}

/// The text that saves a queue: its paths, one per line, the first track
/// first; nothing where the queue is empty and there is nothing to save.
pub fn format_queue(queue: &Vec<Track>) -> (text: Option<String>)
    ensures
        match text {
            Some(t) => queue.len() > 0 && t@ == joined(Seq::new(queue.len() as nat, |k: int| queue[k]@)),
            None => queue.len() == 0,
        },
{
    if queue.len() == 0 {
        return None;
    }
    let ghost paths = Seq::new(queue.len() as nat, |k: int| queue[k]@);
    let mut text: String = queue[0].path().to_owned();
    let mut i: usize = 1;
    assert(paths.take(1) =~= seq![paths[0]]);
    while i < queue.len()
        invariant
            1 <= i <= queue.len(),
            paths == Seq::new(queue.len() as nat, |k: int| queue[k]@),
            text@ == joined(paths.take(i as int)),
        decreases queue.len() - i,
    {
        proof {
            reveal_strlit("\n");
            assert("\n"@ =~= seq!['\n']);
            assert(paths.take(i + 1).drop_last() =~= paths.take(i as int));
        }
        text.append("\n");
        text.append(queue[i].path());
        i += 1;
    }
    assert(paths.take(queue.len() as int) =~= paths);
    Some(text)
}

} // verus!
