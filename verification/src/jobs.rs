//! Background job decisions: which statuses are final, how a finished
//! conversion or rip is recorded, and what a rip writes into the file's tags.

use vstd::prelude::*;
use crate::models::Track;
use crate::tags::TagPatch;
use crate::text::str_eq;

verus! {

/// The statuses after which a job never runs again.
pub open spec fn terminal_status(status: Seq<char>) -> bool {
    status == "done"@ || status == "error"@ || status == "cancelled"@
}

/// Whether a job in `status` is finished (done, failed or cancelled): such
/// a job gets its completion time stamped and can be cleared from the list.
pub fn is_terminal_status(status: &str) -> (r: bool)
    ensures
        r == terminal_status(status@),
{
    str_eq(status, "done") || str_eq(status, "error") || str_eq(status, "cancelled")
}

/// Whether a job that got a worker may start: only one still queued. A job
/// cancelled while it waited for a worker never starts.
pub fn job_may_start(status: &str) -> (r: bool)
    ensures
        r == (status@ == "queued"@),
{
    str_eq(status, "queued")
}

/// How a job ended.
#[derive(Debug, Clone)]
pub enum JobOutcome {
    /// The work completed.
    Done,
    /// The process was killed by a cancel.
    Cancelled,
    /// The work failed with this message.
    Failed(String),
}

/// The outcome of a job whose work returned `result`: the error
/// `"cancelled"` marks a cancel, any other error a failure.
pub fn job_outcome(result: Result<(), String>) -> (o: JobOutcome)
    ensures
        match result {
            Ok(()) => o is Done,
            Err(e) => if e@ == "cancelled"@ {
                o is Cancelled
            } else {
                o matches JobOutcome::Failed(m) && m == e
            },
        },
{
    match result {
        Ok(()) => JobOutcome::Done,
        Err(e) => if str_eq(e.as_str(), "cancelled") {
            JobOutcome::Cancelled
        } else {
            JobOutcome::Failed(e)
        },
    }
}

/// The status a job is recorded with for an outcome.
pub fn outcome_status(o: &JobOutcome) -> (r: &'static str)
    ensures
        match o {
            JobOutcome::Done => r@ == "done"@,
            JobOutcome::Cancelled => r@ == "cancelled"@,
            JobOutcome::Failed(_) => r@ == "error"@,
        },
        terminal_status(r@),
{
    match o {
        JobOutcome::Done => "done",
        JobOutcome::Cancelled => "cancelled",
        JobOutcome::Failed(_) => "error",
    }
}

/// The tags a ripped track's WAV file gets: the track's title, artist,
/// number and disc, and the album's title and artist.
pub fn rip_tag_patch(track: &Track, album_title: &String, album_artist: &Option<String>) -> (p: TagPatch)
    ensures
        p.title == Some(track.title),
        p.artist == track.artist,
        p.album == Some(*album_title),
        p.album_artist == *album_artist,
        p.year is None,
        p.genre is None,
        p.track_number == track.track_number,
        p.disc_number == track.disc_number,
{
    let mut p = TagPatch::empty();
    p.title = Some(track.title.clone());
    p.artist = crate::folder_scan::copy_opt(&track.artist);
    p.album = Some(album_title.clone());
    p.album_artist = crate::folder_scan::copy_opt(album_artist);
    p.track_number = track.track_number;
    p.disc_number = track.disc_number;
    p
}

/// How a finished rip ends once its tags were written: a rip that
/// completed is done only when the tags were written too, and fails with
/// the tag error otherwise; a cancelled or failed rip stays as it was (no
/// tags are written then). The track is marked ripped exactly when this
/// gives `Done`.
pub fn rip_outcome(ripped: JobOutcome, tags: Result<(), String>) -> (o: JobOutcome)
    ensures
        match ripped {
            JobOutcome::Done => match tags {
                Ok(()) => o is Done,
                Err(e) => o matches JobOutcome::Failed(m) && m == e,
            },
            _ => o == ripped,
        },
{
    match ripped {
        JobOutcome::Done => match tags {
            Ok(()) => JobOutcome::Done,
            Err(e) => JobOutcome::Failed(e),
        },
        other => other,
    }
}

} // verus!
