//! The library's records: tracks and albums as stored, and the in-memory
//! results of scanning a folder or planning a CD import.

use vstd::prelude::*;

verus! {

/// One track row of the library.
#[derive(Debug, Clone)]
pub struct Track {
    pub id: i64,
    pub album_id: i64,
    pub disc_number: Option<i64>,
    pub track_number: Option<i64>,
    pub title: String,
    pub artist: Option<String>,
    pub duration_ms: Option<i64>,
    pub source_path: String,
    pub output_path: Option<String>,
    pub status: String,
    pub musicbrainz_recording_id: Option<String>,
    pub codec: Option<String>,
    pub container: Option<String>,
}

/// One album row of the library, with its tracks.
#[derive(Debug, Clone)]
pub struct Album {
    pub id: i64,
    pub title: String,
    pub album_artist: Option<String>,
    pub year: Option<i64>,
    pub genre: Option<String>,
    pub musicbrainz_release_id: Option<String>,
    pub cover_art_path: Option<String>,
    pub source_type: String,
    pub source_path: Option<String>,
    pub created_at: String,
    pub tracks: Vec<Track>,
}

/// In-memory result of scanning a folder, before it's inserted into the DB.
#[derive(Debug, Clone)]
pub struct ScannedAlbum {
    pub title: String,
    pub album_artist: Option<String>,
    pub year: Option<i64>,
    pub genre: Option<String>,
    pub source_path: String,
    pub tracks: Vec<ScannedTrack>,
}

/// A CD track queued for ripping: DB row is inserted before the audio file
/// exists, so `source_path` is the WAV path it *will* be written to.
#[derive(Debug, Clone)]
pub struct PlannedTrack {
    pub track_number: i64,
    pub title: String,
    pub artist: Option<String>,
    pub duration_ms: i64,
    pub source_path: String,
}

/// One audio file found by a folder scan.
#[derive(Debug, Clone)]
pub struct ScannedTrack {
    pub disc_number: Option<i64>,
    pub track_number: Option<i64>,
    pub title: String,
    pub artist: Option<String>,
    pub duration_ms: Option<i64>,
    pub source_path: String,
    pub codec: Option<String>,
    pub container: Option<String>,
}

/// The characters of an optional string.
pub open spec fn opt_view(s: Option<String>) -> Option<Seq<char>> {
    match s {
        Some(x) => Some(x@),
        None => None,
    }
}

/// The characters of each string of a sequence.
pub open spec fn string_views(v: Seq<String>) -> Seq<Seq<char>> {
    v.map_values(|s: String| s@)
}

} // verus!
