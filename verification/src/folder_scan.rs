//! Folder import: which files are audio, how a file's tags become a track,
//! and how the files found by a scan are grouped into albums (one
//! directory, one album) and ordered.

use vstd::prelude::*;
use crate::models::{ScannedAlbum, ScannedTrack};
use crate::numbers::{parse_i64, parse_i64_chars};
use crate::paths::{
    components, components_chars, extension, extension_chars, file_name, file_name_chars,
    file_stem, file_stem_chars,
};
use crate::text::{
    to_lowercase, unicode_lowercase,
    from_chars, lower_ascii_seq, lower_ascii_chars, split, split_chars, starts_with,
    starts_with_chars, to_chars, trim, trim_chars, views,
};

verus! {

/// The extensions (lower-cased) of the files a scan imports.
pub open spec fn is_audio_extension(e: Seq<char>) -> bool {
    ||| e == "flac"@
    ||| e == "mp3"@
    ||| e == "m4a"@
    ||| e == "mp4"@
    ||| e == "alac"@
    ||| e == "wav"@
    ||| e == "aiff"@
    ||| e == "aif"@
    ||| e == "ogg"@
}

/// Whether a path names an audio file by its extension, compared without
/// regard to case. (Lower-casing with `str::to_lowercase` and comparing
/// gives the same answer as ASCII lower-casing here: no non-ASCII character
/// lower-cases to a letter of these extensions.)
pub open spec fn audio_file(path: Seq<char>) -> bool {
    match extension(path) {
        Some(e) => is_audio_extension(lower_ascii_seq(e)),
        None => false,
    }
}

fn eq_lit(v: &Vec<char>, s: &str) -> (r: bool)
    ensures
        r == (v@ == s@),
{
    let w = to_chars(s);
    crate::text::chars_eq(v, &w)
}

/// Whether the file at `path` is imported as audio.
pub fn is_audio_file(path: &str) -> (r: bool)
    ensures
        r == audio_file(path@),
{
    let v = to_chars(path);
    match extension_chars(&v) {
        None => false,
        Some(e) => {
            let l = lower_ascii_chars(&e);
            eq_lit(&l, "flac") || eq_lit(&l, "mp3") || eq_lit(&l, "m4a") || eq_lit(&l, "mp4")
                || eq_lit(&l, "alac") || eq_lit(&l, "wav") || eq_lit(&l, "aiff") || eq_lit(
                &l,
                "aif",
            ) || eq_lit(&l, "ogg")
        },
    }
}

/// macOS writes AppleDouble sidecar files (e.g. `._track.flac`) alongside
/// real files on non-native filesystems; they aren't audio.
pub open spec fn apple_double(path: Seq<char>) -> bool {
    match file_name(path) {
        Some(n) => starts_with(n, "._"@),
        None => false,
    }
}

/// Whether the file at `path` is an AppleDouble sidecar, to be skipped.
pub fn is_apple_double(path: &str) -> (r: bool)
    ensures
        r == apple_double(path@),
{
    let v = to_chars(path);
    match file_name_chars(&v) {
        None => false,
        Some(n) => {
            let p = to_chars("._");
            starts_with_chars(&n, &p)
        },
    }
}

/// A numeric tag such as `"3/12"` or `" 7 "`: the part before the first
/// `/`, trimmed, read as an integer.
pub open spec fn tag_number(raw: Seq<char>) -> Option<i64> {
    parse_i64(trim(split(raw, '/')[0]))
}

/// Reads a numeric tag value (track, disc, year).
pub fn parse_tag_number(raw: &str) -> (r: Option<i64>)
    ensures
        r == tag_number(raw@),
{
    let v = to_chars(raw);
    let pieces = split_chars(&v, '/');
    proof {
        crate::text::lemma_split_nonempty(v@, '/');
    }
    assert(views(pieces@)[0] == pieces@[0]@);
    let t = trim_chars(&pieces[0]);
    parse_i64_chars(&t)
}

/// What a scan read from one audio file: its path, the directory it groups
/// under (its parent, or the scan root), the raw text of its tags, its
/// duration and its file type.
#[derive(Debug, Clone)]
pub struct ScannedFile {
    pub path: String,
    pub dir: String,
    pub title: Option<String>,
    pub artist: Option<String>,
    pub album: Option<String>,
    pub album_artist: Option<String>,
    pub year: Option<String>,
    pub genre: Option<String>,
    pub disc: Option<String>,
    pub track: Option<String>,
    pub duration_ms: i64,
    pub codec: String,
}

/// The plain content of a scanned file.
pub struct FileView {
    pub path: Seq<char>,
    pub dir: Seq<char>,
    pub title: Option<Seq<char>>,
    pub artist: Option<Seq<char>>,
    pub album: Option<Seq<char>>,
    pub album_artist: Option<Seq<char>>,
    pub year: Option<Seq<char>>,
    pub genre: Option<Seq<char>>,
    pub disc: Option<Seq<char>>,
    pub track: Option<Seq<char>>,
    pub duration_ms: i64,
    pub codec: Seq<char>,
}

/// The plain content of a scanned track.
pub struct TrackView {
    pub disc_number: Option<i64>,
    pub track_number: Option<i64>,
    pub title: Seq<char>,
    pub artist: Option<Seq<char>>,
    pub duration_ms: Option<i64>,
    pub source_path: Seq<char>,
    pub codec: Option<Seq<char>>,
    pub container: Option<Seq<char>>,
}

/// The plain content of a scanned album.
pub struct AlbumView {
    pub title: Seq<char>,
    pub album_artist: Option<Seq<char>>,
    pub year: Option<i64>,
    pub genre: Option<Seq<char>>,
    pub source_path: Seq<char>,
    pub tracks: Seq<TrackView>,
}

/// The characters of an optional string.
pub open spec fn ov(s: Option<String>) -> Option<Seq<char>> {
    crate::models::opt_view(s)
}

impl View for ScannedFile {
    type V = FileView;

    open spec fn view(&self) -> FileView {
        FileView {
            path: self.path@,
            dir: self.dir@,
            title: ov(self.title),
            artist: ov(self.artist),
            album: ov(self.album),
            album_artist: ov(self.album_artist),
            year: ov(self.year),
            genre: ov(self.genre),
            disc: ov(self.disc),
            track: ov(self.track),
            duration_ms: self.duration_ms,
            codec: self.codec@,
        }
    }
}

impl View for ScannedTrack {
    type V = TrackView;

    open spec fn view(&self) -> TrackView {
        TrackView {
            disc_number: self.disc_number,
            track_number: self.track_number,
            title: self.title@,
            artist: ov(self.artist),
            duration_ms: self.duration_ms,
            source_path: self.source_path@,
            codec: ov(self.codec),
            container: ov(self.container),
        }
    }
}

impl View for ScannedAlbum {
    type V = AlbumView;

    open spec fn view(&self) -> AlbumView {
        AlbumView {
            title: self.title@,
            album_artist: ov(self.album_artist),
            year: self.year,
            genre: ov(self.genre),
            source_path: self.source_path@,
            tracks: self.tracks@.map_values(|t: ScannedTrack| t@),
        }
    }
}

/// An optional numeric tag read as a number.
pub open spec fn opt_tag_number(raw: Option<Seq<char>>) -> Option<i64> {
    match raw {
        Some(r) => tag_number(r),
        None => None,
    }
}

/// The track a scanned file becomes: numbers read from their tags, the title
/// tag or else the file stem or else "Unknown Title", the file type as codec
/// and the lower-cased extension as container.
pub open spec fn track_of(f: FileView) -> TrackView {
    TrackView {
        disc_number: opt_tag_number(f.disc),
        track_number: opt_tag_number(f.track),
        title: match f.title {
            Some(t) => t,
            None => match file_stem(f.path) {
                Some(s) => s,
                None => "Unknown Title"@,
            },
        },
        artist: f.artist,
        duration_ms: Some(f.duration_ms),
        source_path: f.path,
        codec: Some(f.codec),
        container: match extension(f.path) {
            Some(e) => Some(unicode_lowercase(e)),
            None => None,
        },
    }
}

/// A copy of an optional string.
pub fn copy_opt(s: &Option<String>) -> (r: Option<String>)
    ensures
        r == *s,
{
    match s {
        Some(x) => Some(x.clone()),
        None => None,
    }
}

fn opt_number(raw: &Option<String>) -> (r: Option<i64>)
    ensures
        r == opt_tag_number(ov(*raw)),
{
    match raw {
        Some(x) => parse_tag_number(x.as_str()),
        None => None,
    }
}

/// Builds the track for one scanned file.
pub fn track_from_file(f: &ScannedFile) -> (t: ScannedTrack)
    ensures
        t@ == track_of(f@),
{
    let path = to_chars(f.path.as_str());
    let title = match &f.title {
        Some(t) => t.clone(),
        None => match file_stem_chars(&path) {
            Some(s) => from_chars(&s),
            None => String::from_str("Unknown Title"),
        },
    };
    let container = match extension_chars(&path) {
        Some(e) => Some(to_lowercase(from_chars(&e).as_str())),
        None => None,
    };
    ScannedTrack {
        disc_number: opt_number(&f.disc),
        track_number: opt_number(&f.track),
        title,
        artist: copy_opt(&f.artist),
        duration_ms: Some(f.duration_ms),
        source_path: f.path.clone(),
        codec: Some(f.codec.clone()),
        container,
    }
}


// ---------------------------------------------------------------------------
// Ordering
// ---------------------------------------------------------------------------

/// `Option<i64>` ordering: `None` first, then by value.
pub open spec fn opt_less(a: Option<i64>, b: Option<i64>) -> bool {
    match (a, b) {
        (None, Some(_)) => true,
        (Some(x), Some(y)) => x < y,
        _ => false,
    }
}

/// String ordering: lexicographic by code point (the order of the UTF-8
/// bytes), a proper prefix first.
pub open spec fn seq_less(a: Seq<char>, b: Seq<char>) -> bool
    decreases a.len(),
{
    if a.len() == 0 {
        b.len() > 0
    } else if b.len() == 0 {
        false
    } else if a[0] != b[0] {
        (a[0] as u32) < (b[0] as u32)
    } else {
        seq_less(a.drop_first(), b.drop_first())
    }
}

/// Tracks are ordered by disc number, then track number, then title.
pub open spec fn track_less(a: TrackView, b: TrackView) -> bool {
    ||| opt_less(a.disc_number, b.disc_number)
    ||| a.disc_number == b.disc_number && opt_less(a.track_number, b.track_number)
    ||| a.disc_number == b.disc_number && a.track_number == b.track_number && seq_less(
        a.title,
        b.title,
    )
}

/// Executable `seq_less`.
pub fn chars_less(a: &Vec<char>, b: &Vec<char>) -> (r: bool)
    ensures
        r == seq_less(a@, b@),
{
    let mut i: usize = 0;
    assert(a@.skip(0) == a@ && b@.skip(0) == b@);
    loop
        invariant
            i <= a.len(),
            i <= b.len(),
            seq_less(a@, b@) == seq_less(a@.skip(i as int), b@.skip(i as int)),
        decreases a.len() - i,
    {
        if i == a.len() {
            return i < b.len();
        }
        if i == b.len() {
            return false;
        }
        if a[i] != b[i] {
            return (a[i] as u32) < (b[i] as u32);
        }
        assert(a@.skip(i as int).drop_first() == a@.skip(i + 1));
        assert(b@.skip(i as int).drop_first() == b@.skip(i + 1));
        i += 1;
    }
}

fn opt_less_exec(a: Option<i64>, b: Option<i64>) -> (r: bool)
    ensures
        r == opt_less(a, b),
{
    match (a, b) {
        (None, Some(_)) => true,
        (Some(x), Some(y)) => x < y,
        _ => false,
    }
}

/// Executable `track_less`.
pub fn track_less_exec(a: &ScannedTrack, b: &ScannedTrack) -> (r: bool)
    ensures
        r == track_less(a@, b@),
{
    if opt_less_exec(a.disc_number, b.disc_number) {
        return true;
    }
    if a.disc_number != b.disc_number {
        return false;
    }
    if opt_less_exec(a.track_number, b.track_number) {
        return true;
    }
    if a.track_number != b.track_number {
        return false;
    }
    let x = to_chars(a.title.as_str());
    let y = to_chars(b.title.as_str());
    chars_less(&x, &y)
}

/// Inserts `x` into `s` after every element that does not sort after it
/// (the step of a stable insertion sort).
pub open spec fn insert_sorted(s: Seq<TrackView>, x: TrackView) -> Seq<TrackView>
    decreases s.len(),
{
    if s.len() == 0 {
        seq![x]
    } else if track_less(x, s.last()) {
        insert_sorted(s.drop_last(), x).push(s.last())
    } else {
        s.push(x)
    }
}

/// The tracks in order, tracks that compare equal keeping their input
/// order (`sort_by`, which is stable).
pub open spec fn sort_tracks(s: Seq<TrackView>) -> Seq<TrackView>
    decreases s.len(),
{
    if s.len() == 0 {
        seq![]
    } else {
        insert_sorted(sort_tracks(s.drop_last()), s.last())
    }
}

/// Where `insert_sorted` puts `x`: after the last element it does not sort before.
proof fn lemma_insert_sorted_at(s: Seq<TrackView>, x: TrackView, j: int)
    requires
        0 <= j <= s.len(),
        forall|k: int| j <= k < s.len() ==> track_less(x, #[trigger] s[k]),
        j == 0 || !track_less(x, s[j - 1]),
    ensures
        insert_sorted(s, x) == s.insert(j, x),
    decreases s.len(),
{
    if s.len() == 0 {
        assert(s.insert(0, x) =~= seq![x]);
    } else if j == s.len() {
        assert(s.insert(j, x) =~= s.push(x));
    } else {
        let t = s.drop_last();
        assert forall|k: int| j <= k < t.len() implies track_less(x, #[trigger] t[k]) by {
            assert(t[k] == s[k]);
        }
        if j > 0 {
            assert(t[j - 1] == s[j - 1]);
        }
        assert(track_less(x, s[s.len() - 1]));
        lemma_insert_sorted_at(t, x, j);
        assert(t.insert(j, x).push(s.last()) =~= s.insert(j, x));
    }
}

/// A copy of a track.
pub fn copy_track(t: &ScannedTrack) -> (r: ScannedTrack)
    ensures
        r == *t,
{
    ScannedTrack {
        disc_number: t.disc_number,
        track_number: t.track_number,
        title: t.title.clone(),
        artist: copy_opt(&t.artist),
        duration_ms: t.duration_ms,
        source_path: t.source_path.clone(),
        codec: copy_opt(&t.codec),
        container: copy_opt(&t.container),
    }
}

/// The views of a sequence of tracks.
pub open spec fn track_views(s: Seq<ScannedTrack>) -> Seq<TrackView> {
    s.map_values(|t: ScannedTrack| t@)
}

/// Sorts tracks by disc number, track number and title, stably.
pub fn sort_scanned_tracks(v: &Vec<ScannedTrack>) -> (r: Vec<ScannedTrack>)
    ensures
        track_views(r@) == sort_tracks(track_views(v@)),
{
    let mut out: Vec<ScannedTrack> = Vec::new();
    let mut i: usize = 0;
    while i < v.len()
        invariant
            i <= v.len(),
            track_views(out@) == sort_tracks(track_views(v@).take(i as int)),
        decreases v.len() - i,
    {
        let x = &v[i];
        let mut j = out.len();
        while j > 0 && track_less_exec(x, &out[j - 1])
            invariant
                j <= out.len(),
                forall|k: int| j <= k < out.len() ==> track_less(x@, #[trigger] out@[k]@),
            decreases j,
        {
            j -= 1;
        }
        let ghost before = track_views(out@);
        proof {
            assert forall|k: int| j <= k < before.len() implies track_less(x@, #[trigger] before[k]) by {
                assert(before[k] == out@[k]@);
            }
            if j > 0 {
                assert(before[j - 1] == out@[j - 1]@);
            }
            lemma_insert_sorted_at(before, x@, j as int);
        }
        out.insert(j, copy_track(x));
        assert(track_views(out@) =~= before.insert(j as int, x@));
        assert(track_views(v@).take(i + 1).drop_last() == track_views(v@).take(i as int));
        assert(track_views(v@).take(i + 1).last() == x@);
        i += 1;
    }
    assert(track_views(v@).take(v.len() as int) == track_views(v@));
    out
}

/// The order of path components (as `std::path::Component` orders them):
/// the root, then `.`, then `..`, then names by their text.
pub open spec fn comp_rank(c: Seq<char>) -> int {
    if c == seq!['/'] {
        0
    } else if c == seq!['.'] {
        1
    } else if c == seq!['.', '.'] {
        2
    } else {
        3
    }
}

/// One path component sorts before another.
pub open spec fn comp_less(a: Seq<char>, b: Seq<char>) -> bool {
    comp_rank(a) < comp_rank(b) || (comp_rank(a) == 3 && comp_rank(b) == 3 && seq_less(a, b))
}

/// Path ordering: lexicographic over components.
pub open spec fn path_less(a: Seq<Seq<char>>, b: Seq<Seq<char>>) -> bool
    decreases a.len(),
{
    if a.len() == 0 {
        b.len() > 0
    } else if b.len() == 0 {
        false
    } else if a[0] != b[0] {
        comp_less(a[0], b[0])
    } else {
        path_less(a.drop_first(), b.drop_first())
    }
}

fn comp_rank_exec(c: &Vec<char>) -> (r: u8)
    ensures
        r as int == comp_rank(c@),
{
    if c.len() == 1 && c[0] == '/' {
        assert(c@ == seq!['/']);
        0
    } else if c.len() == 1 && c[0] == '.' {
        assert(c@ == seq!['.']);
        assert(c@ != seq!['/']);
        1
    } else if c.len() == 2 && c[0] == '.' && c[1] == '.' {
        assert(c@ == seq!['.', '.']);
        assert(c@ != seq!['/'] && c@ != seq!['.']);
        2
    } else {
        assert(c@ != seq!['/']) by {
            if c@ == seq!['/'] {
                assert(c@[0] == '/');
            }
        }
        assert(c@ != seq!['.']) by {
            if c@ == seq!['.'] {
                assert(c@[0] == '.');
            }
        }
        assert(c@ != seq!['.', '.']) by {
            if c@ == seq!['.', '.'] {
                assert(c@[0] == '.' && c@[1] == '.');
            }
        }
        3
    }
}

/// Executable `path_less`.
pub fn path_less_exec(a: &Vec<Vec<char>>, b: &Vec<Vec<char>>) -> (r: bool)
    ensures
        r == path_less(views(a@), views(b@)),
{
    let ghost va = views(a@);
    let ghost vb = views(b@);
    let mut i: usize = 0;
    assert(va.skip(0) == va && vb.skip(0) == vb);
    loop
        invariant
            i <= a.len(),
            i <= b.len(),
            va == views(a@),
            vb == views(b@),
            path_less(va, vb) == path_less(va.skip(i as int), vb.skip(i as int)),
        decreases a.len() - i,
    {
        if i == a.len() {
            return i < b.len();
        }
        if i == b.len() {
            return false;
        }
        assert(va.skip(i as int)[0] == a@[i as int]@);
        assert(vb.skip(i as int)[0] == b@[i as int]@);
        if !crate::text::chars_eq(&a[i], &b[i]) {
            let ra = comp_rank_exec(&a[i]);
            let rb = comp_rank_exec(&b[i]);
            return ra < rb || (ra == 3 && rb == 3 && chars_less(&a[i], &b[i]));
        }
        assert(va.skip(i as int).drop_first() == va.skip(i + 1));
        assert(vb.skip(i as int).drop_first() == vb.skip(i + 1));
        i += 1;
    }
}

/// Whether two component lists are equal.
pub fn keys_eq(a: &Vec<Vec<char>>, b: &Vec<Vec<char>>) -> (r: bool)
    ensures
        r == (views(a@) == views(b@)),
{
    if a.len() != b.len() {
        return false;
    }
    let mut i: usize = 0;
    while i < a.len()
        invariant
            a.len() == b.len(),
            i <= a.len(),
            forall|j: int| 0 <= j < i ==> a@[j]@ == b@[j]@,
        decreases a.len() - i,
    {
        if !crate::text::chars_eq(&a[i], &b[i]) {
            assert(views(a@)[i as int] != views(b@)[i as int]);
            return false;
        }
        i += 1;
    }
    assert(views(a@) =~= views(b@));
    true
}


// ---------------------------------------------------------------------------
// Grouping files into albums
// ---------------------------------------------------------------------------

/// A directory's group: its path components and the positions of its files
/// in scan order.
pub type GroupView = (Seq<Seq<char>>, Seq<int>);

/// Adds file `i` with directory components `key` to groups kept in
/// directory order (a `BTreeMap` keyed by directory): it joins the group
/// with an equal key, or opens a new group at its place in the order.
pub open spec fn add_to_groups(gs: Seq<GroupView>, key: Seq<Seq<char>>, i: int) -> Seq<GroupView>
    decreases gs.len(),
{
    if gs.len() == 0 {
        seq![(key, seq![i])]
    } else if gs.last().0 == key {
        gs.update(gs.len() - 1, (key, gs.last().1.push(i)))
    } else if path_less(gs.last().0, key) {
        gs.push((key, seq![i]))
    } else {
        add_to_groups(gs.drop_last(), key, i).push(gs.last())
    }
}

/// The groups of all scanned files, by directory, in directory order.
pub open spec fn group_files(files: Seq<FileView>) -> Seq<GroupView>
    decreases files.len(),
{
    if files.len() == 0 {
        seq![]
    } else {
        add_to_groups(group_files(files.drop_last()), components(files.last().dir), files.len() - 1)
    }
}

/// The album a group becomes: tag metadata of the group's first file, the
/// album title falling back to the directory name and then to
/// "Unknown Album", and the group's tracks sorted.
pub open spec fn album_of(files: Seq<FileView>, g: GroupView) -> AlbumView {
    let f = files[g.1[0]];
    AlbumView {
        title: match f.album {
            Some(t) => t,
            None => match file_name(f.dir) {
                Some(n) => n,
                None => "Unknown Album"@,
            },
        },
        album_artist: f.album_artist,
        year: opt_tag_number(f.year),
        genre: f.genre,
        source_path: f.dir,
        tracks: sort_tracks(g.1.map_values(|k: int| track_of(files[k]))),
    }
}

/// The albums a folder scan yields: one per directory, in directory order.
pub open spec fn scan_albums(files: Seq<FileView>) -> Seq<AlbumView> {
    group_files(files).map_values(|g: GroupView| album_of(files, g))
}

/// Where `add_to_groups` puts file `i`: into group `j - 1` when its key is
/// equal, or as a new group at `j`.
proof fn lemma_add_to_groups_at(gs: Seq<GroupView>, key: Seq<Seq<char>>, i: int, j: int)
    requires
        0 <= j <= gs.len(),
        forall|k: int|
            j <= k < gs.len() ==> (#[trigger] gs[k]).0 != key && !path_less(gs[k].0, key),
        j == 0 || gs[j - 1].0 == key || path_less(gs[j - 1].0, key),
    ensures
        add_to_groups(gs, key, i) == if j > 0 && gs[j - 1].0 == key {
            gs.update(j - 1, (key, gs[j - 1].1.push(i)))
        } else {
            gs.insert(j, (key, seq![i]))
        },
    decreases gs.len(),
{
    if gs.len() == 0 {
        assert(gs.insert(0, (key, seq![i])) =~= seq![(key, seq![i])]);
    } else if j == gs.len() {
        if gs[j - 1].0 == key {
        } else {
            assert(gs.insert(j, (key, seq![i])) =~= gs.push((key, seq![i])));
        }
    } else {
        let t = gs.drop_last();
        assert forall|k: int| j <= k < t.len() implies (#[trigger] t[k]).0 != key && !path_less(
            t[k].0,
            key,
        ) by {
            assert(t[k] == gs[k]);
        }
        if j > 0 {
            assert(t[j - 1] == gs[j - 1]);
        }
        assert(gs[gs.len() - 1].0 != key);
        lemma_add_to_groups_at(t, key, i, j);
        if j > 0 && gs[j - 1].0 == key {
            assert(t.update(j - 1, (key, gs[j - 1].1.push(i))).push(gs.last()) =~= gs.update(
                j - 1,
                (key, gs[j - 1].1.push(i)),
            ));
        } else {
            assert(t.insert(j, (key, seq![i])).push(gs.last()) =~= gs.insert(j, (key, seq![i])));
        }
    }
}

/// `add_to_groups` places file `i` by the position `j` found from the end.
pub proof fn lemma_add_to_groups_at_pub(gs: Seq<GroupView>, key: Seq<Seq<char>>, i: int, j: int)
    requires
        0 <= j <= gs.len(),
        forall|k: int|
            j <= k < gs.len() ==> (#[trigger] gs[k]).0 != key && !path_less(gs[k].0, key),
        j == 0 || gs[j - 1].0 == key || path_less(gs[j - 1].0, key),
    ensures
        add_to_groups(gs, key, i) == if j > 0 && gs[j - 1].0 == key {
            gs.update(j - 1, (key, gs[j - 1].1.push(i)))
        } else {
            gs.insert(j, (key, seq![i]))
        },
{
    lemma_add_to_groups_at(gs, key, i, j);
}

/// A directory group under construction.
pub struct Group {
    pub key: Vec<Vec<char>>,
    pub members: Vec<usize>,
}

impl View for Group {
    type V = GroupView;

    open spec fn view(&self) -> GroupView {
        (views(self.key@), self.members@.map_values(|m: usize| m as int))
    }
}

/// The views of a sequence of groups.
pub open spec fn group_views(gs: Seq<Group>) -> Seq<GroupView> {
    gs.map_values(|g: Group| g@)
}

/// The views of a sequence of scanned files.
pub open spec fn file_views(fs: Seq<ScannedFile>) -> Seq<FileView> {
    fs.map_values(|f: ScannedFile| f@)
}

/// Every group of the first `n` files is non-empty and lists positions below `n`.
proof fn lemma_group_members(files: Seq<FileView>)
    ensures
        forall|g: int|
            0 <= g < group_files(files).len() ==> (#[trigger] group_files(files)[g]).1.len() > 0
                && forall|m: int|
                0 <= m < group_files(files)[g].1.len() ==> 0 <= #[trigger] group_files(
                    files,
                )[g].1[m] < files.len(),
    decreases files.len(),
{
    if files.len() > 0 {
        let prev = files.drop_last();
        lemma_group_members(prev);
        lemma_add_to_groups_members(group_files(prev), components(files.last().dir), files.len() - 1);
        assert(group_files(files) == add_to_groups(
            group_files(prev),
            components(files.last().dir),
            files.len() - 1,
        ));
    }
}

proof fn lemma_add_to_groups_members(gs: Seq<GroupView>, key: Seq<Seq<char>>, i: int)
    requires
        i >= 0,
        forall|g: int|
            0 <= g < gs.len() ==> (#[trigger] gs[g]).1.len() > 0 && forall|m: int|
                0 <= m < gs[g].1.len() ==> 0 <= #[trigger] gs[g].1[m] < i,
    ensures
        forall|g: int|
            0 <= g < add_to_groups(gs, key, i).len() ==> (#[trigger] add_to_groups(gs, key, i)[g]).1.len()
                > 0 && forall|m: int|
                0 <= m < add_to_groups(gs, key, i)[g].1.len() ==> 0 <= #[trigger] add_to_groups(
                    gs,
                    key,
                    i,
                )[g].1[m] < i + 1,
    decreases gs.len(),
{
    if gs.len() > 0 && gs.last().0 != key && !path_less(gs.last().0, key) {
        let t = gs.drop_last();
        assert forall|g: int| 0 <= g < t.len() implies (#[trigger] t[g]).1.len() > 0 && forall|m: int|
            0 <= m < t[g].1.len() ==> 0 <= #[trigger] t[g].1[m] < i by {
            assert(t[g] == gs[g]);
        }
        lemma_add_to_groups_members(t, key, i);
    }
    let r = add_to_groups(gs, key, i);
    assert forall|g: int| 0 <= g < r.len() implies (#[trigger] r[g]).1.len() > 0 && forall|m: int|
        0 <= m < r[g].1.len() ==> 0 <= #[trigger] r[g].1[m] < i + 1 by {
        if gs.len() == 0 {
            assert(r[g].1 == seq![i]);
            assert forall|m: int| 0 <= m < r[g].1.len() implies 0 <= #[trigger] r[g].1[m] < i + 1 by {
            }
        } else if gs.last().0 == key {
            if g == gs.len() - 1 {
                assert(r[g].1 == gs[g].1.push(i));
                assert forall|m: int| 0 <= m < r[g].1.len() implies 0 <= #[trigger] r[g].1[m] < i + 1 by {
                    if m < gs[g].1.len() {
                        assert(r[g].1[m] == gs[g].1[m]);
                    }
                }
            } else {
                assert(r[g] == gs[g]);
            }
        } else if path_less(gs.last().0, key) {
            if g == gs.len() {
                assert(r[g].1 == seq![i]);
            } else {
                assert(r[g] == gs[g]);
            }
        } else {
            let t = gs.drop_last();
            assert(r == add_to_groups(t, key, i).push(gs.last()));
            if g == r.len() - 1 {
                assert(r[g] == gs.last());
                assert(gs.last() == gs[gs.len() - 1]);
            } else {
                assert(r[g] == add_to_groups(t, key, i)[g]);
            }
        }
    }
}

/// Groups the files by directory, in directory order (files keep scan order
/// within a group).
pub fn group_by_dir(files: &Vec<ScannedFile>) -> (r: Vec<Group>)
    ensures
        group_views(r@) == group_files(file_views(files@)),
{
    let mut groups: Vec<Group> = Vec::new();
    let mut i: usize = 0;
    while i < files.len()
        invariant
            i <= files.len(),
            group_views(groups@) == group_files(file_views(files@).take(i as int)),
        decreases files.len() - i,
    {
        let dir = to_chars(files[i].dir.as_str());
        let key = components_chars(&dir);
        let ghost gs = group_views(groups@);
        let mut j = groups.len();
        while j > 0 && !keys_eq(&groups[j - 1].key, &key) && !path_less_exec(&groups[j - 1].key, &key)
            invariant
                j <= groups.len(),
                gs == group_views(groups@),
                forall|k: int|
                    j <= k < gs.len() ==> (#[trigger] gs[k]).0 != views(key@) && !path_less(
                        gs[k].0,
                        views(key@),
                    ),
            decreases j,
        {
            assert(gs[j - 1] == groups@[j - 1]@);
            j -= 1;
        }
        if j > 0 {
            assert(gs[j - 1] == groups@[j - 1]@);
        }
        proof {
            lemma_add_to_groups_at(gs, views(key@), i as int, j as int);
        }
        if j > 0 && keys_eq(&groups[j - 1].key, &key) {
            let mut g = groups.remove(j - 1);
            g.members.push(i);
            assert(g@ == (gs[j - 1].0, gs[j - 1].1.push(i as int)));
            groups.insert(j - 1, g);
            assert(group_views(groups@) =~= gs.update(j - 1, (views(key@), gs[j - 1].1.push(i as int))));
        } else {
            let mut members: Vec<usize> = Vec::new();
            members.push(i);
            let g = Group { key, members };
            assert(g@ == (views(key@), seq![i as int]));
            groups.insert(j, g);
            assert(group_views(groups@) =~= gs.insert(j as int, (views(key@), seq![i as int])));
        }
        assert(file_views(files@).take(i + 1).drop_last() == file_views(files@).take(i as int));
        assert(file_views(files@).take(i + 1).last() == files@[i as int]@);
        i += 1;
    }
    assert(file_views(files@).take(files.len() as int) == file_views(files@));
    groups
}


/// The albums a folder scan yields from the audio files it read (in walk
/// order): one album per directory, albums in directory order, each album's
/// metadata taken from its first file and its tracks sorted by disc number,
/// track number and title.
pub fn albums_from_files(files: &Vec<ScannedFile>) -> (r: Vec<ScannedAlbum>)
    ensures
        r@.map_values(|a: ScannedAlbum| a@) == scan_albums(file_views(files@)),
{
    let ghost fv = file_views(files@);
    let mut tracks: Vec<ScannedTrack> = Vec::new();
    let mut i: usize = 0;
    while i < files.len()
        invariant
            i <= files.len(),
            fv == file_views(files@),
            tracks.len() == i,
            forall|k: int| 0 <= k < i ==> (#[trigger] tracks@[k])@ == track_of(fv[k]),
        decreases files.len() - i,
    {
        tracks.push(track_from_file(&files[i]));
        i += 1;
    }
    let groups = group_by_dir(files);
    let ghost gs = group_views(groups@);
    proof {
        lemma_group_members(fv);
    }
    let mut albums: Vec<ScannedAlbum> = Vec::new();
    let mut gi: usize = 0;
    while gi < groups.len()
        invariant
            gi <= groups.len(),
            fv == file_views(files@),
            gs == group_views(groups@),
            gs == group_files(fv),
            tracks.len() == files.len(),
            forall|k: int| 0 <= k < files.len() ==> (#[trigger] tracks@[k])@ == track_of(fv[k]),
            forall|g: int|
                0 <= g < gs.len() ==> (#[trigger] gs[g]).1.len() > 0 && forall|m: int|
                    0 <= m < gs[g].1.len() ==> 0 <= #[trigger] gs[g].1[m] < fv.len(),
            albums@.map_values(|a: ScannedAlbum| a@) == scan_albums(fv).take(gi as int),
        decreases groups.len() - gi,
    {
        let g = &groups[gi];
        assert(gs[gi as int] == g@);
        let ghost members = gs[gi as int].1;
        let mut member_tracks: Vec<ScannedTrack> = Vec::new();
        let mut m: usize = 0;
        while m < g.members.len()
            invariant
                m <= g.members.len(),
                members == g@.1,
                members.len() == g.members.len(),
                tracks.len() == files.len(),
                fv.len() == files.len(),
                forall|k: int| 0 <= k < files.len() ==> (#[trigger] tracks@[k])@ == track_of(fv[k]),
                forall|x: int| 0 <= x < members.len() ==> 0 <= #[trigger] members[x] < fv.len(),
                track_views(member_tracks@) == members.take(m as int).map_values(
                    |k: int| track_of(fv[k]),
                ),
            decreases g.members.len() - m,
        {
            let k = g.members[m];
            assert(members[m as int] == k as int);
            let ghost before = track_views(member_tracks@);
            member_tracks.push(copy_track(&tracks[k]));
            assert(track_views(member_tracks@) =~= before.push(track_of(fv[k as int])));
            assert(members.take(m + 1).map_values(|k: int| track_of(fv[k])) =~= members.take(
                m as int,
            ).map_values(|k: int| track_of(fv[k])).push(track_of(fv[k as int])));
            m += 1;
        }
        assert(members.take(members.len() as int) == members);
        let sorted = sort_scanned_tracks(&member_tracks);
        let first = g.members[0];
        assert(members[0] == first as int);
        let f = &files[first];
        assert(fv[first as int] == f@);
        let title = match &f.album {
            Some(t) => t.clone(),
            None => {
                let d = to_chars(f.dir.as_str());
                match file_name_chars(&d) {
                    Some(n) => from_chars(&n),
                    None => String::from_str("Unknown Album"),
                }
            },
        };
        let album = ScannedAlbum {
            title,
            album_artist: copy_opt(&f.album_artist),
            year: opt_number(&f.year),
            genre: copy_opt(&f.genre),
            source_path: f.dir.clone(),
            tracks: sorted,
        };
        assert(album@.tracks == track_views(sorted@));
        assert(album@ == album_of(fv, gs[gi as int]));
        let ghost before = albums@.map_values(|a: ScannedAlbum| a@);
        albums.push(album);
        assert(albums@.map_values(|a: ScannedAlbum| a@) =~= before.push(album_of(fv, gs[gi as int])));
        assert(scan_albums(fv).take(gi + 1) =~= scan_albums(fv).take(gi as int).push(
            album_of(fv, gs[gi as int]),
        ));
        gi += 1;
    }
    assert(scan_albums(fv).take(groups.len() as int) =~= scan_albums(fv));
    albums
}

} // verus!
