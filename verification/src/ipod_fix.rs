//! The "make it iPod-safe" workflow: album tags made uniform across an
//! album's tracks, and each file's real audio codec checked against what its
//! extension promises, re-encoding the file in place when they disagree.
//!
//! Writing tags, probing a file with `ffprobe` and re-encoding it with
//! `ffmpeg` happen outside this crate; the decisions between them are the
//! state machine `fix_start` / `fix_step` here, driven by the caller.

use vstd::prelude::*;
use crate::convert::push_str;
use crate::models::{Album, string_views};
use crate::paths::{extension, extension_chars};
use crate::tags::TagPatch;
use crate::text::{from_chars, to_lowercase, unicode_lowercase, to_chars, str_eq};

verus! {

/// Codecs a given container extension is actually allowed to hold. A file
/// whose real codec (per ffprobe) isn't in this list is mislabeled -- the
/// classic case being FLAC audio saved with a `.mp3` extension, which
/// iPods will refuse to play despite the file "looking" fine.
pub open spec fn expected_codec_list(extension: Seq<char>) -> Seq<Seq<char>> {
    if extension == "mp3"@ {
        seq!["mp3"@]
    } else if extension == "m4a"@ || extension == "mp4"@ {
        seq!["alac"@, "aac"@]
    } else if extension == "flac"@ {
        seq!["flac"@]
    } else if extension == "wav"@ || extension == "aiff"@ || extension == "aif"@ {
        seq!["pcm_s16le"@, "pcm_s24le"@, "pcm_s32le"@, "pcm_s16be"@, "pcm_s24be"@]
    } else if extension == "ogg"@ {
        seq!["vorbis"@]
    } else {
        seq![]
    }
}

/// The views of a list of string slices.
pub open spec fn str_views(v: Seq<&str>) -> Seq<Seq<char>> {
    v.map_values(|s: &str| s@)
}

/// The codecs a container extension may hold (empty when the extension is
/// not one this check knows).
pub fn expected_codecs(extension: &str) -> (r: Vec<&'static str>)
    ensures
        str_views(r@) == expected_codec_list(extension@),
{
    let mut r: Vec<&'static str> = Vec::new();
    if str_eq(extension, "mp3") {
        r.push("mp3");
    } else if str_eq(extension, "m4a") || str_eq(extension, "mp4") {
        r.push("alac");
        r.push("aac");
    } else if str_eq(extension, "flac") {
        r.push("flac");
    } else if str_eq(extension, "wav") || str_eq(extension, "aiff") || str_eq(extension, "aif") {
        r.push("pcm_s16le");
        r.push("pcm_s24le");
        r.push("pcm_s32le");
        r.push("pcm_s16be");
        r.push("pcm_s24be");
    } else if str_eq(extension, "ogg") {
        r.push("vorbis");
    }
    assert(str_views(r@) =~= expected_codec_list(extension@));
    r
}

/// Whether `codec` is one of the codecs `extension` may hold.
pub fn codec_allowed(extension: &str, codec: &str) -> (r: bool)
    ensures
        r == expected_codec_list(extension@).contains(codec@),
{
    let list = expected_codecs(extension);
    let mut i: usize = 0;
    while i < list.len()
        invariant
            i <= list.len(),
            str_views(list@) == expected_codec_list(extension@),
            forall|j: int| 0 <= j < i ==> list@[j]@ != codec@,
        decreases list.len() - i,
    {
        if str_eq(list[i], codec) {
            assert(str_views(list@)[i as int] == codec@);
            return true;
        }
        i += 1;
    }
    assert forall|j: int| 0 <= j < expected_codec_list(extension@).len() implies expected_codec_list(
        extension@,
    )[j] != codec@ by {
        assert(str_views(list@)[j] == list@[j]@);
    }
    false
}

/// One stream of `ffprobe -show_streams` output, as far as the codec probe reads it.
#[derive(Debug, Clone)]
pub struct ProbeStream {
    pub codec_type: Option<String>,
    pub codec_name: Option<String>,
}

/// The codec of the first audio stream: the first stream whose type is
/// `audio` decides, and has to name its codec.
pub open spec fn audio_codec_of(s: Seq<(Option<Seq<char>>, Option<Seq<char>>)>) -> Result<
    Seq<char>,
    Seq<char>,
>
    decreases s.len(),
{
    if s.len() == 0 {
        Err("no audio stream found"@)
    } else if s[0].0 == Some("audio"@) {
        match s[0].1 {
            Some(n) => Ok(n),
            None => Err("no audio stream found"@),
        }
    } else {
        audio_codec_of(s.drop_first())
    }
}

/// The plain content of probed streams.
pub open spec fn stream_views(s: Seq<ProbeStream>) -> Seq<(Option<Seq<char>>, Option<Seq<char>>)> {
    s.map_values(
        |p: ProbeStream| (crate::models::opt_view(p.codec_type), crate::models::opt_view(p.codec_name)),
    )
}

/// The real audio codec of a probed file.
pub fn first_audio_codec(streams: &Vec<ProbeStream>) -> (r: Result<String, String>)
    ensures
        match (r, audio_codec_of(stream_views(streams@))) {
            (Ok(c), Ok(d)) => c@ == d,
            (Err(m), Err(n)) => m@ == n,
            _ => false,
        },
{
    let ghost all = stream_views(streams@);
    let mut i: usize = 0;
    assert(all.skip(0) == all);
    while i < streams.len()
        invariant
            i <= streams.len(),
            all == stream_views(streams@),
            audio_codec_of(all) == audio_codec_of(all.skip(i as int)),
        decreases streams.len() - i,
    {
        let s = &streams[i];
        assert(all.skip(i as int)[0] == all[i as int]);
        let is_audio = match &s.codec_type {
            Some(t) => str_eq(t.as_str(), "audio"),
            None => false,
        };
        if is_audio {
            return match &s.codec_name {
                Some(n) => Ok(n.clone()),
                None => Err(String::from_str("no audio stream found")),
            };
        }
        assert(all.skip(i as int).drop_first() == all.skip(i + 1));
        i += 1;
    }
    assert(all.skip(streams.len() as int).len() == 0);
    Err(String::from_str("no audio stream found"))
}

/// The `ffprobe` arguments that list a file's streams as JSON.
pub fn ffprobe_args(path: &str) -> (r: Vec<String>)
    ensures
        string_views(r@) == seq!["-v"@, "quiet"@, "-print_format"@, "json"@, "-show_streams"@, path@],
{
    let mut args: Vec<String> = Vec::new();
    push_str(&mut args, "-v");
    push_str(&mut args, "quiet");
    push_str(&mut args, "-print_format");
    push_str(&mut args, "json");
    push_str(&mut args, "-show_streams");
    push_str(&mut args, path);
    assert(string_views(args@) =~= seq!["-v"@, "quiet"@, "-print_format"@, "json"@, "-show_streams"@, path@]);
    args
}

/// The temporary file a re-encode writes before it replaces the file.
pub open spec fn reencode_tmp_path(path: Seq<char>) -> Seq<char> {
    path + ".ipodfix.tmp"@
}

/// The codec arguments of a re-encode: what the extension promises (MP3 at
/// VBR quality 2, ALAC for `.m4a`/`.mp4`, FLAC), otherwise a stream copy.
pub open spec fn reencode_codec_list(extension: Seq<char>) -> Seq<Seq<char>> {
    if extension == "mp3"@ {
        seq!["-c:a"@, "libmp3lame"@, "-q:a"@, "2"@]
    } else if extension == "m4a"@ || extension == "mp4"@ {
        seq!["-c:a"@, "alac"@]
    } else if extension == "flac"@ {
        seq!["-c:a"@, "flac"@]
    } else {
        seq!["-c:a"@, "copy"@]
    }
}

/// The `ffmpeg` arguments that re-encode `path` to match `extension`,
/// writing to the temporary path.
pub fn reencode_args(path: &str, extension: &str) -> (r: Vec<String>)
    ensures
        string_views(r@) == seq!["-y"@, "-i"@, path@] + reencode_codec_list(extension@) + seq![
            reencode_tmp_path(path@),
        ],
{
    let mut args: Vec<String> = Vec::new();
    push_str(&mut args, "-y");
    push_str(&mut args, "-i");
    push_str(&mut args, path);
    if str_eq(extension, "mp3") {
        push_str(&mut args, "-c:a");
        push_str(&mut args, "libmp3lame");
        push_str(&mut args, "-q:a");
        push_str(&mut args, "2");
    } else if str_eq(extension, "m4a") || str_eq(extension, "mp4") {
        push_str(&mut args, "-c:a");
        push_str(&mut args, "alac");
    } else if str_eq(extension, "flac") {
        push_str(&mut args, "-c:a");
        push_str(&mut args, "flac");
    } else {
        push_str(&mut args, "-c:a");
        push_str(&mut args, "copy");
    }
    let tmp = reencode_tmp(path);
    push_str(&mut args, tmp.as_str());
    assert(string_views(args@) =~= seq!["-y"@, "-i"@, path@] + reencode_codec_list(extension@)
        + seq![reencode_tmp_path(path@)]);
    args
}

/// The temporary path of a re-encode of `path`.
pub fn reencode_tmp(path: &str) -> (r: String)
    ensures
        r@ == reencode_tmp_path(path@),
{
    let mut s = String::from_str(path);
    s.append(".ipodfix.tmp");
    s
}


// ---------------------------------------------------------------------------
// The fix workflow
// ---------------------------------------------------------------------------

/// What the fix did to an album: how many tracks had their album tags
/// normalized, which tracks were re-encoded (by title), and one message per
/// track it had to skip.
#[derive(Debug, Clone)]
pub struct FixReport {
    pub album_id: i64,
    pub tags_normalized: usize,
    pub tracks_reencoded: Vec<String>,
    pub errors: Vec<String>,
}

/// Where the fix stands on its current track.
#[derive(Debug, Clone, Copy, PartialEq, Eq, Structural)]
pub enum FixPhase {
    /// Waiting for the album tags to be written.
    Tagging,
    /// Waiting for the first probe of the file's codec.
    Checking,
    /// Waiting for the re-encode of a mislabeled file.
    ReEncoding,
    /// Waiting for the probe after the codec comparison (or re-encode).
    Reprobing,
    /// Waiting for the probed codec to be recorded on the track.
    Recording,
    /// Every track has been handled.
    Finished,
}

/// The fix's progress through an album.
#[derive(Debug, Clone)]
pub struct FixState {
    pub report: FixReport,
    pub track: usize,
    pub phase: FixPhase,
    pub extension: String,
}

/// The outcome of the last action, handed back by the caller.
#[derive(Debug)]
pub enum FixEvent {
    TagsWritten(Result<(), String>),
    Probed(Result<String, String>),
    ReEncoded(Result<(), String>),
    CodecRecorded,
}

/// The next thing the caller has to do.
#[derive(Debug, Clone)]
pub enum FixAction {
    /// Write `patch` into the tags of track `track`'s file.
    WriteTags { track: usize, patch: TagPatch },
    /// Probe track `track`'s file for its audio codec.
    Probe { track: usize },
    /// Re-encode track `track`'s file to match `extension`, in place.
    ReEncode { track: usize, extension: String },
    /// Record `codec` and `extension` as the track's codec and container.
    RecordCodec { track: usize, codec: String, extension: String },
    /// The fix is done; the report is final.
    Finish,
}

/// The plain content of a report.
pub struct ReportView {
    pub album_id: i64,
    pub tags_normalized: nat,
    pub reencoded: Seq<Seq<char>>,
    pub errors: Seq<Seq<char>>,
}

/// The plain content of the fix's state.
pub struct StateView {
    pub report: ReportView,
    pub track: int,
    pub phase: FixPhase,
    pub extension: Seq<char>,
}

/// The plain content of an event.
pub enum EventView {
    TagsWritten(Result<(), Seq<char>>),
    Probed(Result<Seq<char>, Seq<char>>),
    ReEncoded(Result<(), Seq<char>>),
    CodecRecorded,
}

/// The plain content of an action; a tag write carries the album title and
/// album artist it writes (its other fields are `None`).
pub enum ActionView {
    WriteTags { track: int, album: Option<Seq<char>>, album_artist: Option<Seq<char>>, others_none: bool },
    Probe { track: int },
    ReEncode { track: int, extension: Seq<char> },
    RecordCodec { track: int, codec: Seq<char>, extension: Seq<char> },
    Finish,
}

pub open spec fn unit_result(r: Result<(), String>) -> Result<(), Seq<char>> {
    match r {
        Ok(()) => Ok(()),
        Err(e) => Err(e@),
    }
}

impl View for FixReport {
    type V = ReportView;

    open spec fn view(&self) -> ReportView {
        ReportView {
            album_id: self.album_id,
            tags_normalized: self.tags_normalized as nat,
            reencoded: string_views(self.tracks_reencoded@),
            errors: string_views(self.errors@),
        }
    }
}

impl View for FixState {
    type V = StateView;

    open spec fn view(&self) -> StateView {
        StateView {
            report: self.report@,
            track: self.track as int,
            phase: self.phase,
            extension: self.extension@,
        }
    }
}

impl View for FixEvent {
    type V = EventView;

    open spec fn view(&self) -> EventView {
        match self {
            FixEvent::TagsWritten(r) => EventView::TagsWritten(unit_result(*r)),
            FixEvent::Probed(r) => EventView::Probed(
                match r {
                    Ok(c) => Ok(c@),
                    Err(e) => Err(e@),
                },
            ),
            FixEvent::ReEncoded(r) => EventView::ReEncoded(unit_result(*r)),
            FixEvent::CodecRecorded => EventView::CodecRecorded,
        }
    }
}

impl View for FixAction {
    type V = ActionView;

    open spec fn view(&self) -> ActionView {
        match self {
            FixAction::WriteTags { track, patch } => ActionView::WriteTags {
                track: *track as int,
                album: crate::models::opt_view(patch.album),
                album_artist: crate::models::opt_view(patch.album_artist),
                others_none: patch.title is None && patch.artist is None && patch.year is None
                    && patch.genre is None && patch.track_number is None && patch.disc_number is None,
            },
            FixAction::Probe { track } => ActionView::Probe { track: *track as int },
            FixAction::ReEncode { track, extension } => ActionView::ReEncode {
                track: *track as int,
                extension: extension@,
            },
            FixAction::RecordCodec { track, codec, extension } => ActionView::RecordCodec {
                track: *track as int,
                codec: codec@,
                extension: extension@,
            },
            FixAction::Finish => ActionView::Finish,
        }
    }
}

/// The lower-cased extension of a track's file (`""` when it has none).
pub open spec fn track_extension(path: Seq<char>) -> Seq<char> {
    unicode_lowercase(
        match extension(path) {
            Some(e) => e,
            None => seq![],
        },
    )
}

/// Moving on to track `i`: tag it, or finish after the last track.
pub open spec fn begin_track(album: Album, report: ReportView, i: int) -> (StateView, ActionView) {
    if i >= album.tracks.len() {
        (StateView { report, track: i, phase: FixPhase::Finished, extension: seq![] }, ActionView::Finish)
    } else {
        (
            StateView { report, track: i, phase: FixPhase::Tagging, extension: seq![] },
            ActionView::WriteTags {
                track: i,
                album: Some(album.title@),
                album_artist: crate::models::opt_view(album.album_artist),
                others_none: true,
            },
        )
    }
}

/// The report with one more error message for track `i`: `"{title}: {error}"`.
pub open spec fn with_error(album: Album, r: ReportView, i: int, e: Seq<char>) -> ReportView {
    ReportView { errors: r.errors.push(album.tracks[i].title@ + ": "@ + e), ..r }
}

/// Whether an event answers the action the state is waiting on.
pub open spec fn answers(phase: FixPhase, e: EventView) -> bool {
    match phase {
        FixPhase::Tagging => e is TagsWritten,
        FixPhase::Checking => e is Probed,
        FixPhase::ReEncoding => e is ReEncoded,
        FixPhase::Reprobing => e is Probed,
        FixPhase::Recording => e is CodecRecorded,
        FixPhase::Finished => false,
    }
}

/// One step of the fix: per track, write the normalized album tags (a
/// failure skips the track); for a container this check knows, probe the
/// real codec (a failure skips the track), re-encode when the codec is not
/// one the extension allows (a failure skips the track), probe again and
/// record the codec found (a failed second probe records nothing).
pub open spec fn fix_transition(album: Album, s: StateView, e: EventView) -> (StateView, ActionView) {
    let i = s.track;
    let r = s.report;
    match (s.phase, e) {
        (FixPhase::Tagging, EventView::TagsWritten(Err(msg))) => begin_track(album, with_error(album, r, i, msg), i + 1),
        (FixPhase::Tagging, EventView::TagsWritten(Ok(()))) => {
            let r2 = ReportView { tags_normalized: r.tags_normalized + 1, ..r };
            let ext = track_extension(album.tracks[i].source_path@);
            if expected_codec_list(ext).len() == 0 {
                begin_track(album, r2, i + 1)
            } else {
                (StateView { report: r2, track: i, phase: FixPhase::Checking, extension: ext }, ActionView::Probe { track: i })
            }
        },
        (FixPhase::Checking, EventView::Probed(Err(msg))) => begin_track(album, with_error(album, r, i, msg), i + 1),
        (FixPhase::Checking, EventView::Probed(Ok(codec))) => {
            if expected_codec_list(s.extension).contains(codec) {
                (StateView { phase: FixPhase::Reprobing, ..s }, ActionView::Probe { track: i })
            } else {
                (StateView { phase: FixPhase::ReEncoding, ..s }, ActionView::ReEncode { track: i, extension: s.extension })
            }
        },
        (FixPhase::ReEncoding, EventView::ReEncoded(Err(msg))) => begin_track(album, with_error(album, r, i, msg), i + 1),
        (FixPhase::ReEncoding, EventView::ReEncoded(Ok(()))) => (
            StateView {
                report: ReportView { reencoded: r.reencoded.push(album.tracks[i].title@), ..r },
                phase: FixPhase::Reprobing,
                ..s
            },
            ActionView::Probe { track: i },
        ),
        (FixPhase::Reprobing, EventView::Probed(Ok(codec))) => (
            StateView { phase: FixPhase::Recording, ..s },
            ActionView::RecordCodec { track: i, codec, extension: s.extension },
        ),
        (FixPhase::Reprobing, EventView::Probed(Err(_))) => begin_track(album, r, i + 1),
        (FixPhase::Recording, EventView::CodecRecorded) => begin_track(album, r, i + 1),
        _ => (s, ActionView::Finish),
    }
}

/// A state the fix can be in for `album`: its track is in range (past the
/// end only once finished) and it has normalized no more tracks than it
/// has reached.
pub open spec fn fix_wf(album: Album, s: StateView) -> bool {
    &&& 0 <= s.track <= album.tracks.len()
    &&& (s.phase != FixPhase::Finished ==> s.track < album.tracks.len())
    &&& s.report.tags_normalized <= s.track + (if s.phase == FixPhase::Tagging || s.phase
        == FixPhase::Finished {
        0int
    } else {
        1int
    })
}

fn start_track(album: &Album, report: FixReport, i: usize) -> (r: (FixState, FixAction))
    requires
        i <= album.tracks.len(),
        report@.tags_normalized <= i,
    ensures
        (r.0@, r.1@) == begin_track(*album, report@, i as int),
        fix_wf(*album, r.0@),
{
    if i >= album.tracks.len() {
        let s = FixState { report, track: i, phase: FixPhase::Finished, extension: String::new() };
        (s, FixAction::Finish)
    } else {
        let mut patch = TagPatch::empty();
        patch.album = Some(album.title.clone());
        patch.album_artist = crate::folder_scan::copy_opt(&album.album_artist);
        let s = FixState { report, track: i, phase: FixPhase::Tagging, extension: String::new() };
        (s, FixAction::WriteTags { track: i, patch })
    }
}

fn error_message(title: &String, e: &String) -> (m: String)
    ensures
        m@ == title@ + ": "@ + e@,
{
    let mut m = title.clone();
    m.append(": ");
    m.append(e.as_str());
    m
}

/// The fix's first step for `album`: tag its first track, or finish at once
/// when it has none.
pub fn fix_start(album: &Album) -> (r: (FixState, FixAction))
    ensures
        (r.0@, r.1@) == begin_track(
            *album,
            ReportView { album_id: album.id, tags_normalized: 0, reencoded: seq![], errors: seq![] },
            0,
        ),
        fix_wf(*album, r.0@),
{
    let report = FixReport {
        album_id: album.id,
        tags_normalized: 0,
        tracks_reencoded: Vec::new(),
        errors: Vec::new(),
    };
    assert(report@.reencoded =~= seq![] && report@.errors =~= seq![]);
    start_track(album, report, 0)
}

/// The fix's next step, from where it stands and the outcome of the action
/// it asked for last.
pub fn fix_step(album: &Album, state: FixState, event: FixEvent) -> (r: (FixState, FixAction))
    requires
        fix_wf(*album, state@),
        answers(state.phase, event@),
    ensures
        (r.0@, r.1@) == fix_transition(*album, state@, event@),
        fix_wf(*album, r.0@),
{
    let i = state.track;
    let mut report = state.report;
    match (state.phase, event) {
        (FixPhase::Tagging, FixEvent::TagsWritten(Err(msg))) => {
            let ghost before = report@;
            report.errors.push(error_message(&album.tracks[i].title, &msg));
            assert(report@.errors =~= before.errors.push(album.tracks@[i as int].title@ + ": "@ + msg@));
            assert(report@ == with_error(*album, before, i as int, msg@));
            start_track(album, report, i + 1)
        },
        (FixPhase::Tagging, FixEvent::TagsWritten(Ok(()))) => {
            report.tags_normalized = report.tags_normalized + 1;
            let path = to_chars(album.tracks[i].source_path.as_str());
            let raw = match extension_chars(&path) {
                Some(e) => from_chars(&e),
                None => String::new(),
            };
            let ext = to_lowercase(raw.as_str());
            if expected_codecs(ext.as_str()).len() == 0 {
                start_track(album, report, i + 1)
            } else {
                (FixState { report, track: i, phase: FixPhase::Checking, extension: ext }, FixAction::Probe { track: i })
            }
        },
        (FixPhase::Checking, FixEvent::Probed(Err(msg))) => {
            let ghost before = report@;
            report.errors.push(error_message(&album.tracks[i].title, &msg));
            assert(report@.errors =~= before.errors.push(album.tracks@[i as int].title@ + ": "@ + msg@));
            assert(report@ == with_error(*album, before, i as int, msg@));
            start_track(album, report, i + 1)
        },
        (FixPhase::Checking, FixEvent::Probed(Ok(codec))) => {
            if codec_allowed(state.extension.as_str(), codec.as_str()) {
                (FixState { report, track: i, phase: FixPhase::Reprobing, extension: state.extension }, FixAction::Probe { track: i })
            } else {
                let ext = state.extension.clone();
                (FixState { report, track: i, phase: FixPhase::ReEncoding, extension: state.extension }, FixAction::ReEncode { track: i, extension: ext })
            }
        },
        (FixPhase::ReEncoding, FixEvent::ReEncoded(Err(msg))) => {
            let ghost before = report@;
            report.errors.push(error_message(&album.tracks[i].title, &msg));
            assert(report@.errors =~= before.errors.push(album.tracks@[i as int].title@ + ": "@ + msg@));
            assert(report@ == with_error(*album, before, i as int, msg@));
            start_track(album, report, i + 1)
        },
        (FixPhase::ReEncoding, FixEvent::ReEncoded(Ok(()))) => {
            let ghost before = report@;
            report.tracks_reencoded.push(album.tracks[i].title.clone());
            assert(report@.reencoded =~= before.reencoded.push(album.tracks@[i as int].title@));
            (FixState { report, track: i, phase: FixPhase::Reprobing, extension: state.extension }, FixAction::Probe { track: i })
        },
        (FixPhase::Reprobing, FixEvent::Probed(Ok(codec))) => {
            let ext = state.extension.clone();
            (FixState { report, track: i, phase: FixPhase::Recording, extension: state.extension }, FixAction::RecordCodec { track: i, codec, extension: ext })
        },
        (FixPhase::Reprobing, FixEvent::Probed(Err(_))) => {
            start_track(album, report, i + 1)
        },
        (FixPhase::Recording, FixEvent::CodecRecorded) => {
            start_track(album, report, i + 1)
        },
        _ => {
            proof {
                assert(false);
            }
            (FixState { report, track: i, phase: FixPhase::Finished, extension: String::new() }, FixAction::Finish)
        },
    }
}


/// How far along a phase is on its track.
pub open spec fn phase_rank(p: FixPhase) -> int {
    match p {
        FixPhase::Tagging => 0,
        FixPhase::Checking => 1,
        FixPhase::ReEncoding => 2,
        FixPhase::Reprobing => 3,
        FixPhase::Recording => 4,
        FixPhase::Finished => 5,
    }
}

/// The work left: six steps at most per remaining track.
pub open spec fn fix_remaining(album: Album, s: StateView) -> int {
    (album.tracks.len() - s.track) * 6 + (5 - phase_rank(s.phase))
}

/// Every step of the fix moves forward: it stays on its track or moves to
/// the next, only appends to the report's lists, never lowers the count of
/// normalized tracks, and strictly lowers the work left, so the fix always
/// finishes; it asks to finish exactly when it has passed the last track.
pub proof fn law_fix_progress(album: Album, s: StateView, e: EventView)
    requires
        fix_wf(album, s),
        answers(s.phase, e),
    ensures
        ({
            let (t, a) = fix_transition(album, s, e);
            &&& t.track == s.track || t.track == s.track + 1
            &&& s.report.errors.is_prefix_of(t.report.errors)
            &&& s.report.reencoded.is_prefix_of(t.report.reencoded)
            &&& s.report.tags_normalized <= t.report.tags_normalized
            &&& t.report.album_id == s.report.album_id
            &&& 0 <= fix_remaining(album, t) < fix_remaining(album, s)
            &&& (a is Finish <==> t.phase == FixPhase::Finished)
            &&& (t.phase == FixPhase::Finished ==> t.track == album.tracks.len())
        }),
{
    let (t, a) = fix_transition(album, s, e);
    assert(s.report.errors.is_prefix_of(t.report.errors)) by {
        assert(t.report.errors.len() >= s.report.errors.len());
        assert forall|k: int| 0 <= k < s.report.errors.len() implies s.report.errors[k] == t.report.errors[k] by {}
    }
    assert(s.report.reencoded.is_prefix_of(t.report.reencoded)) by {
        assert(t.report.reencoded.len() >= s.report.reencoded.len());
        assert forall|k: int| 0 <= k < s.report.reencoded.len() implies s.report.reencoded[k] == t.report.reencoded[k] by {}
    }
}


/// How the report matches the tracks reached so far: each track adds at
/// most one error or re-encode (never both), a re-encode only after a
/// normalized tag write, and at least one normalized tag write or error
/// (its tag write succeeds or fails).
pub open spec fn counts_ok(s: StateView) -> bool {
    let r = s.report.reencoded.len() as int;
    let e = s.report.errors.len() as int;
    let n = s.report.tags_normalized as int;
    let i = s.track;
    match s.phase {
        FixPhase::Tagging | FixPhase::Finished => r + e <= i && n <= i && r <= n && n + e >= i,
        FixPhase::Checking | FixPhase::ReEncoding => r + e <= i && n <= i + 1 && r + 1 <= n && n + e >= i + 1,
        FixPhase::Reprobing | FixPhase::Recording => r + e <= i + 1 && n <= i + 1 && r <= n && n + e >= i + 1,
    }
}

/// The fix starts with a report its tracks account for.
pub proof fn law_fix_counts_start(album: Album)
    ensures
        counts_ok(
            begin_track(
                album,
                ReportView { album_id: album.id, tags_normalized: 0, reencoded: seq![], errors: seq![] },
                0,
            ).0,
        ),
{
}

/// Every step keeps the report accounted for, so once the fix finishes on
/// an album of `T` tracks it has normalized at most `T` tracks, re-encoded
/// no track it did not normalize, re-encoded plus failed at most `T` tracks
/// in all, and normalized or failed every track (normalized plus errors is
/// at least `T`; a track can count in both, when its tags were written but
/// its probe or re-encode failed).
pub proof fn law_fix_counts(album: Album, s: StateView, e: EventView)
    requires
        fix_wf(album, s),
        counts_ok(s),
        answers(s.phase, e),
    ensures
        counts_ok(fix_transition(album, s, e).0),
        fix_transition(album, s, e).0.phase == FixPhase::Finished ==> {
            let r = fix_transition(album, s, e).0.report;
            &&& r.tags_normalized <= album.tracks.len()
            &&& r.reencoded.len() <= r.tags_normalized
            &&& r.reencoded.len() + r.errors.len() <= album.tracks.len()
            &&& r.tags_normalized + r.errors.len() >= album.tracks.len()
        },
{
    law_fix_progress(album, s, e);
}

/// The codec a successful probe found.
pub open spec fn probed_codec(e: EventView) -> Option<Seq<char>> {
    match e {
        EventView::Probed(Ok(c)) => Some(c),
        _ => None,
    }
}

/// A file is re-encoded only when its probed codec is not one its
/// extension allows: from the codec check, a probed codec the extension
/// allows leads to the second probe with the report unchanged (no
/// re-encode), one it does not allow leads to a re-encode to that
/// extension; no other step asks for a re-encode, and only a finished
/// re-encode adds to the re-encoded list.
pub proof fn law_reencode_only_mislabeled(album: Album, s: StateView, e: EventView)
    requires
        fix_wf(album, s),
        answers(s.phase, e),
    ensures
        ({
            let (t, a) = fix_transition(album, s, e);
            let allowed = expected_codec_list(s.extension);
            &&& (s.phase == FixPhase::Checking && probed_codec(e) is Some && allowed.contains(
                probed_codec(e)->0,
            )) ==> (a == ActionView::Probe { track: s.track } && t.phase == FixPhase::Reprobing
                && t.report == s.report)
            &&& (s.phase == FixPhase::Checking && probed_codec(e) is Some && !allowed.contains(
                probed_codec(e)->0,
            )) ==> (a == ActionView::ReEncode { track: s.track, extension: s.extension }
                && t.report == s.report)
            &&& a is ReEncode ==> (s.phase == FixPhase::Checking && probed_codec(e) is Some
                && !allowed.contains(probed_codec(e)->0))
            &&& t.report.reencoded.len() > s.report.reencoded.len() ==> (s.phase
                == FixPhase::ReEncoding && e is ReEncoded)
        }),
{
}

} // verus!
