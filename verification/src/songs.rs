//! The track store: which files count as songs, in what order a directory's
//! songs are queued, and the names under which tracks are listed.
use crate::track::{
    extension, extension_of, file_name, file_name_of, file_stem, parent, parent_of, Track,
};
use vstd::prelude::*;
use vstd::seq_lib::*;
use vstd::string::*;
use vstd::utf8::*;

verus! {

/// How many names a listing shows at most.
pub const LISTING_LIMIT: usize = 20;

/// Whether `ext` is the extension of a format that can be played.
pub open spec fn is_supported_format(ext: Seq<char>) -> bool {
    ext == "mp3"@ || ext == "flac"@ || ext == "ogg"@ || ext == "wav"@ || ext == "aac"@
}

/// Whether the path's extension is that of a format that can be played.
pub open spec fn is_song_path(path: Seq<char>) -> bool {
    match extension(path) {
        Some(ext) => is_supported_format(ext),
        None => false,
    }
}

/// Whether two strings hold the same characters.
pub fn same_text(a: &str, b: &str) -> (same: bool)
    ensures
        same == (a@ == b@),
{
    let n: usize = a.unicode_len();
    if b.unicode_len() != n {
        return false;
    }
    let mut i: usize = 0;
    while i < n
        invariant
            i <= n,
            n == a@.len(),
            n == b@.len(),
            forall|j: int| 0 <= j < i ==> a@[j] == b@[j],
        decreases n - i,
    {
        if a.get_char(i) != b.get_char(i) {
            return false;
        }
        i += 1;
    }
    assert(a@ =~= b@);
    true
}

/// Whether `path` names a file of a supported format: its extension is one
/// of `mp3`, `flac`, `ogg`, `wav` and `aac`, in lower case.
pub fn has_supported_extension(path: &str) -> (supported: bool)
    ensures
        supported == is_song_path(path@),
{
    match extension_of(path) {
        Some(ext) => {
            same_text(ext, "mp3") || same_text(ext, "flac") || same_text(ext, "ogg") || same_text(
                ext,
                "wav",
            ) || same_text(ext, "aac")
        },
        None => false,
    }
}

/// The tracks that a listing shows, in its order: all of them or the first
/// `limit`, counted from the end if `rev` is set.
pub open spec fn listed(tracks: Seq<Track>, rev: bool, limit: int) -> Seq<Track> {
    let ordered = if rev {
        tracks.reverse()
    } else {
        tracks
    };
    if ordered.len() > limit {
        ordered.take(limit)
    } else {
        ordered
    }
}

/// The display names of at most `LISTING_LIMIT` tracks.
pub open spec fn song_names(tracks: Seq<Track>, rev: bool) -> Seq<Seq<char>> {
    let shown = listed(tracks, rev, LISTING_LIMIT as int);
    Seq::new(shown.len(), |i: int| file_stem(shown[i]@))
}

/// The file names of all the tracks.
pub open spec fn song_files(tracks: Seq<Track>, rev: bool) -> Seq<Seq<char>> {
    let shown = listed(tracks, rev, tracks.len() as int);
    Seq::new(shown.len(), |i: int| file_name(shown[i]@))
}

/// Whether every track's path has a file name, and so a name to list it
/// under.
pub open spec fn all_named(tracks: Seq<Track>) -> bool {
    forall|i: int| 0 <= i < tracks.len() ==> file_name(#[trigger] tracks[i]@).len() > 0
}

/// Whether every track of `paths` has a file name.
pub fn have_names(paths: &Vec<Track>) -> (named: bool)
    ensures
        named == all_named(paths@),
{
    let mut i: usize = 0;
    while i < paths.len()
        invariant
            i <= paths.len(),
            forall|j: int| 0 <= j < i ==> file_name(#[trigger] paths[j]@).len() > 0,
        decreases paths.len() - i,
    {
        if !paths[i].has_name() {
            return false;
        }
        i += 1;
    }
    true
}

/// The display names of the first `LISTING_LIMIT` tracks of `paths`; with
/// `rev`, of its last ones, the last track first. Every track has to have a
/// file name.
pub fn to_song_names<'a>(paths: &'a Vec<Track>, rev: bool) -> (names: Vec<&'a str>)
    requires
        all_named(paths@),
    ensures
        names.len() == song_names(paths@, rev).len(),
        forall|i: int| 0 <= i < names.len() ==> names[i]@ == song_names(paths@, rev)[i],
{
    let n: usize = paths.len();
    let count: usize = if n > LISTING_LIMIT {
        LISTING_LIMIT
    } else {
        n
    };
    let mut names: Vec<&'a str> = Vec::new();
    let mut i: usize = 0;
    while i < count
        invariant
            i <= count <= n,
            n == paths.len(),
            count == song_names(paths@, rev).len(),
            all_named(paths@),
            names.len() == i,
            forall|j: int| 0 <= j < i ==> names[j]@ == song_names(paths@, rev)[j],
        decreases count - i,
    {
        let at: usize = if rev {
            n - 1 - i
        } else {
            i
        };
        assert(file_name(paths@[at as int]@).len() > 0);
        names.push(paths[at].name());
        i += 1;
    }
    names
}

/// The file names of the tracks of `paths`; with `rev`, the last track
/// first. Every track has to have a file name.
pub fn song_list<'a>(paths: &'a Vec<Track>, rev: bool) -> (names: Vec<&'a str>)
    requires
        all_named(paths@),
    ensures
        names.len() == song_files(paths@, rev).len(),
        forall|i: int| 0 <= i < names.len() ==> names[i]@ == song_files(paths@, rev)[i],
{
    let n: usize = paths.len();
    let mut names: Vec<&'a str> = Vec::new();
    let mut i: usize = 0;
    while i < n
        invariant
            i <= n,
            n == paths.len(),
            n == song_files(paths@, rev).len(),
            names.len() == i,
            forall|j: int| 0 <= j < i ==> names[j]@ == song_files(paths@, rev)[j],
        decreases n - i,
    {
        let at: usize = if rev {
            n - 1 - i
        } else {
            i
        };
        names.push(file_name_of(paths[at].path()));
        i += 1;
    }
    names
}

/// One entry of a directory, as its listing gave it.
pub struct DirEntry {
    /// The entry's path.
    pub path: String,
    /// Whether the entry is a regular file.
    pub is_file: bool,
}

/// Whether a directory entry is queued: a regular file of a supported
/// format.
pub open spec fn is_song(entry: DirEntry) -> bool {
    entry.is_file && is_song_path(entry.path@)
}

/// The paths of the entries that are queued, in the listing's order.
pub open spec fn song_paths(entries: Seq<DirEntry>) -> Seq<Seq<char>>
    decreases entries.len(),
{
    if entries.len() == 0 {
        Seq::empty()
    } else if is_song(entries.last()) {
        song_paths(entries.drop_last()).push(entries.last().path@)
    } else {
        song_paths(entries.drop_last())
    }
}

/// The order of byte strings: byte by byte, a prefix before what it is a
/// prefix of.
pub open spec fn bytes_le(a: Seq<u8>, b: Seq<u8>) -> bool
    decreases a.len(),
{
    if a.len() == 0 {
        true
    } else if b.len() == 0 {
        false
    } else if a[0] == b[0] {
        bytes_le(a.drop_first(), b.drop_first())
    } else {
        a[0] < b[0]
    }
}

/// The order of paths: that of the bytes of their UTF-8 encoding.
pub open spec fn path_le(a: Seq<char>, b: Seq<char>) -> bool {
    bytes_le(encode_utf8(a), encode_utf8(b))
}

/// The path of each track.
pub open spec fn track_paths(tracks: Seq<Track>) -> Seq<Seq<char>> {
    Seq::new(tracks.len(), |i: int| tracks[i]@)
}

/// No path stands before a greater one.
pub open spec fn descending(paths: Seq<Seq<char>>) -> bool {
    forall|i: int, j: int| 0 <= i < j < paths.len() ==> path_le(paths[j], paths[i])
}

/// Of two byte strings one is at most the other.
pub proof fn lemma_bytes_le_total(a: Seq<u8>, b: Seq<u8>)
    ensures
        bytes_le(a, b) || bytes_le(b, a),
    decreases a.len(),
{
    if a.len() > 0 && b.len() > 0 && a[0] == b[0] {
        lemma_bytes_le_total(a.drop_first(), b.drop_first());
    }
}

/// The order of byte strings is transitive.
pub proof fn lemma_bytes_le_transitive(a: Seq<u8>, b: Seq<u8>, c: Seq<u8>)
    requires
        bytes_le(a, b),
        bytes_le(b, c),
    ensures
        bytes_le(a, c),
    decreases a.len(),
{
    if a.len() > 0 && a[0] == b[0] && b[0] == c[0] {
        lemma_bytes_le_transitive(a.drop_first(), b.drop_first(), c.drop_first());
    }
}

/// Byte strings that are at most each other are the same.
pub proof fn lemma_bytes_le_antisymmetric(a: Seq<u8>, b: Seq<u8>)
    requires
        bytes_le(a, b),
        bytes_le(b, a),
    ensures
        a == b,
    decreases a.len(),
{
    if a.len() > 0 {
        lemma_bytes_le_antisymmetric(a.drop_first(), b.drop_first());
        assert(a =~= seq![a[0]] + a.drop_first());
        assert(b =~= seq![b[0]] + b.drop_first());
    } else {
        assert(a =~= b);
    }
}

/// Paths that are at most each other are the same path.
pub proof fn lemma_path_le_antisymmetric(a: Seq<char>, b: Seq<char>)
    requires
        path_le(a, b),
        path_le(b, a),
    ensures
        a == b,
{
    lemma_bytes_le_antisymmetric(encode_utf8(a), encode_utf8(b));
    encode_utf8_decode_utf8(a);
    encode_utf8_decode_utf8(b);
}

/// The first path of a descending sequence is at least every path in it.
proof fn lemma_first_is_greatest(p: Seq<Seq<char>>, x: Seq<char>)
    requires
        descending(p),
        p.contains(x),
    ensures
        path_le(x, p[0]),
{
    let k = choose|k: int| 0 <= k < p.len() && p[k] == x;
    if k == 0 {
        lemma_bytes_le_total(encode_utf8(x), encode_utf8(x));
    }
}

/// The order leaves no choice: two descending sequences of the same paths,
/// each as often in one as in the other, are the same sequence.
pub proof fn lemma_descending_unique(p: Seq<Seq<char>>, q: Seq<Seq<char>>)
    requires
        descending(p),
        descending(q),
        p.to_multiset() == q.to_multiset(),
    ensures
        p == q,
    decreases p.len(),
{
    to_multiset_len(p);
    to_multiset_len(q);
    if p.len() == 0 {
        assert(p =~= q);
    } else {
        to_multiset_contains(p, p[0]);
        to_multiset_contains(q, p[0]);
        to_multiset_contains(p, q[0]);
        to_multiset_contains(q, q[0]);
        assert(p.contains(p[0]));
        assert(q.contains(q[0]));
        lemma_first_is_greatest(q, p[0]);
        lemma_first_is_greatest(p, q[0]);
        lemma_path_le_antisymmetric(p[0], q[0]);
        to_multiset_remove(p, 0);
        to_multiset_remove(q, 0);
        let p_rest = p.remove(0);
        let q_rest = q.remove(0);
        assert forall|i: int, j: int| 0 <= i < j < p_rest.len() implies path_le(
            p_rest[j],
            p_rest[i],
        ) by {
            assert(path_le(p[j + 1], p[i + 1]));
        }
        assert forall|i: int, j: int| 0 <= i < j < q_rest.len() implies path_le(
            q_rest[j],
            q_rest[i],
        ) by {
            assert(path_le(q[j + 1], q[i + 1]));
        }
        lemma_descending_unique(p_rest, q_rest);
        assert(p =~= seq![p[0]] + p_rest);
        assert(q =~= seq![q[0]] + q_rest);
    }
}

/// Whether `a` is at most `b` in the order of byte strings.
pub fn bytes_precede(a: &[u8], b: &[u8]) -> (le: bool)
    ensures
        le == bytes_le(a@, b@),
{
    let mut i: usize = 0;
    assert(a@.skip(0) =~= a@);
    assert(b@.skip(0) =~= b@);
    while i < a.len() && i < b.len()
        invariant
            i <= a.len(),
            i <= b.len(),
            bytes_le(a@, b@) == bytes_le(a@.skip(i as int), b@.skip(i as int)),
        decreases a.len() - i,
    {
        if a[i] != b[i] {
            return a[i] < b[i];
        }
        proof {
            assert(a@.skip(i as int).drop_first() =~= a@.skip(i + 1));
            assert(b@.skip(i as int).drop_first() =~= b@.skip(i + 1));
        }
        i += 1;
    }
    i == a.len()
}

/// Whether the path `a` is at most the path `b`.
pub fn precedes(a: &str, b: &str) -> (le: bool)
    ensures
        le == path_le(a@, b@),
{
    bytes_precede(a.as_bytes(), b.as_bytes())
}

/// Puts a track into a queue that is in descending order, behind the
/// tracks with a greater path.
pub fn insert_descending(queue: &mut Vec<Track>, track: Track)
    requires
        descending(track_paths(old(queue)@)),
    ensures
        descending(track_paths(final(queue)@)),
        track_paths(final(queue)@).to_multiset() == track_paths(old(queue)@).to_multiset().insert(
            track@,
        ),
{
    let mut at: usize = 0;
    while at < queue.len() && !precedes(queue[at].path(), track.path())
        invariant
            at <= queue.len(),
            forall|k: int| 0 <= k < at ==> !path_le(#[trigger] queue[k]@, track@),
        decreases queue.len() - at,
    {
        at += 1;
    }
    let ghost before = track_paths(queue@);
    queue.insert(at, track);
    proof {
        let after = track_paths(queue@);
        assert(after =~= before.insert(at as int, track@));
        to_multiset_insert(before, at as int, track@);
        assert forall|i: int, j: int| 0 <= i < j < after.len() implies path_le(
            after[j],
            after[i],
        ) by {
            if j == at {
                lemma_bytes_le_total(encode_utf8(before[i]), encode_utf8(track@));
            } else if i == at {
                if j - 1 > at {
                    assert(path_le(before[j - 1], before[at as int]));
                    lemma_bytes_le_transitive(
                        encode_utf8(before[j - 1]),
                        encode_utf8(before[at as int]),
                        encode_utf8(track@),
                    );
                }
            } else if i < at && at < j {
                assert(path_le(before[j - 1], before[i]));
            } else if at < i {
                assert(path_le(before[j - 1], before[i - 1]));
            }
        }
    }
}

/// The queue for `song_path`. Where it is a directory, `listing` holds the
/// directory's entries, and the queue holds those that are regular files of a
/// supported format, greatest path first, so that the track with the smallest
/// path is the last of the queue and plays first. Where it is not, the queue
/// holds `song_path` alone, whatever its format.
pub fn load_song_list(song_path: String, listing: Option<Vec<DirEntry>>) -> (queue: Vec<Track>)
    ensures
        match listing {
            Some(entries) => {
                &&& track_paths(queue@).to_multiset() == song_paths(entries@).to_multiset()
                &&& descending(track_paths(queue@))
            },
            None => track_paths(queue@) == seq![song_path@],
        },
{
    let mut queue: Vec<Track> = Vec::new();
    match listing {
        Some(entries) => {
            let mut i: usize = 0;
            proof {
                assert(entries@.take(0) =~= Seq::<DirEntry>::empty());
                assert(track_paths(queue@) =~= song_paths(entries@.take(0)));
            }
            while i < entries.len()
                invariant
                    i <= entries.len(),
                    track_paths(queue@).to_multiset() == song_paths(
                        entries@.take(i as int),
                    ).to_multiset(),
                    descending(track_paths(queue@)),
                decreases entries.len() - i,
            {
                proof {
                    assert(entries@.take(i + 1).drop_last() =~= entries@.take(i as int));
                    to_multiset_build(song_paths(entries@.take(i as int)), entries[i as int].path@);
                }
                if entries[i].is_file && has_supported_extension(entries[i].path.as_str()) {
                    insert_descending(&mut queue, Track::new(entries[i].path.clone()));
                }
                i += 1;
            }
            assert(entries@.take(entries.len() as int) =~= entries@);
        },
        None => {
            queue.push(Track::new(song_path));
            assert(track_paths(queue@) =~= seq![song_path@]);
        },
    }
    queue
}

/// Whether `text` begins with `prefix`.
pub fn starts_with(text: &str, prefix: &str) -> (starts: bool)
    ensures
        starts == prefix@.is_prefix_of(text@),
{
    let n: usize = prefix.unicode_len();
    if text.unicode_len() < n {
        return false;
    }
    let mut i: usize = 0;
    while i < n
        invariant
            i <= n,
            n == prefix@.len(),
            n <= text@.len(),
            forall|j: int| 0 <= j < i ==> text@[j] == prefix@[j],
        decreases n - i,
    {
        if text.get_char(i) != prefix.get_char(i) {
            assert(!prefix@.is_prefix_of(text@)) by {
                if prefix@.is_prefix_of(text@) {
                    assert(text@.subrange(0, n as int)[i as int] == prefix@[i as int]);
                }
            }
            return false;
        }
        i += 1;
    }
    assert(text@.subrange(0, n as int) =~= prefix@);
    true
}

/// Whether a path is the address of a file to download first.
pub open spec fn is_remote(path: Seq<char>) -> bool {
    "https://"@.is_prefix_of(path) || "http://"@.is_prefix_of(path)
}

/// Whether `path` is an address that begins with `https://` or `http://`.
pub fn is_remote_path(path: &str) -> (remote: bool)
    ensures
        remote == is_remote(path@),
{
    starts_with(path, "https://") || starts_with(path, "http://")
}

/// A content type without the `audio/` that it begins with, however often
/// that is repeated.
pub open spec fn audio_format(content_type: Seq<char>) -> Seq<char>
    decreases content_type.len(),
{
    if "audio/"@.len() > 0 && "audio/"@.is_prefix_of(content_type) {
        audio_format(content_type.subrange("audio/"@.len() as int, content_type.len() as int))
    } else {
        content_type
    }
}

/// The name under which a downloaded song is saved.
pub open spec fn download_name(content_type: Option<Seq<char>>) -> Seq<char> {
    "downloaded_song."@ + match content_type {
        Some(t) => audio_format(t),
        None => "mp3"@,
    }
}

/// The file name for a downloaded song: `downloaded_song.` and, as its
/// extension, the content type that the server named, without its leading
/// `audio/`; `mp3` where the server named none.
pub fn download_file_name(content_type: Option<&str>) -> (name: String)
    ensures
        name@ == download_name(
            match content_type {
                Some(t) => Some(t@),
                None => None,
            },
        ),
{
    let mut name: String = "downloaded_song.".to_owned();
    match content_type {
        Some(t) => {
            let mut format: &str = t;
            let skip: usize = "audio/".unicode_len();
            while skip > 0 && starts_with(format, "audio/")
                invariant
                    skip == "audio/"@.len(),
                    audio_format(format@) == audio_format(t@),
                decreases format@.len(),
            {
                let n: usize = format.unicode_len();
                format = format.substring_char(skip, n);
            }
            name.append(format);
        },
        None => {
            name.append("mp3");
        },
    }
    name
}

/// The directory that the search starts from: the music directory where one
/// is set, else the home directory, else nothing.
pub fn search_dir(music_home: Option<String>, home: Option<String>) -> (dir: String)
    ensures
        dir@ == match music_home {
            Some(m) => m@,
            None => match home {
                Some(h) => h@,
                None => Seq::empty(),
            },
        },
{
    match music_home {
        Some(m) => m,
        None => match home {
            Some(h) => h,
            None => String::new(),
        },
    }
}

/// What the search looks for: the query's file name, or everything, in the
/// query itself if it is a directory and else in its directory part.
pub open spec fn search_terms(query: Seq<char>, is_dir: bool) -> (Seq<char>, Seq<char>) {
    if is_dir {
        (seq!['.'], query)
    } else if file_name(query).len() == 0 {
        (seq!['.'], parent(query))
    } else {
        (file_name(query), parent(query))
    }
}

/// The shell command that finds the files to offer for `query`.
pub open spec fn search_line(query: Seq<char>, is_dir: bool) -> Seq<char> {
    let (name, dir) = search_terms(query, is_dir);
    "fd \""@ + name + "\" \""@ + dir + "\" -d 1"@
}

/// The shell command that lists, one level deep, the files whose name
/// matches the query's file name in the query's directory; every file of
/// the query itself where `is_dir` says that it is a directory.
pub fn search_command(query: &str, is_dir: bool) -> (command: String)
    ensures
        command@ == search_line(query@, is_dir),
{
    proof {
        reveal_strlit(".");
        assert("."@ =~= seq!['.']);
    }
    let name: &str = if is_dir {
        "."
    } else {
        let file = file_name_of(query);
        if file.unicode_len() == 0 {
            "."
        } else {
            file
        }
    };
    let dir: &str = if is_dir {
        query
    } else {
        parent_of(query)
    };
    let mut command: String = "fd \"".to_owned();
    command.append(name);
    command.append("\" \"");
    command.append(dir);
    command.append("\" -d 1");
    command
}

} // verus!
