//! The decisions behind the app's commands: cover image files, the CD
//! import plan, and where imported and generated files go.

use vstd::prelude::*;
use crate::disc_id::{DiscInfo, DiscTrack};
use crate::models::{PlannedTrack, opt_view};
use crate::musicbrainz::{MbReleaseTrack, ReleaseDetail};
use crate::numbers::{decimal, decimal_pad2, fmt_i64, fmt_i64_pad2};
use crate::paths::{extension, extension_chars, join, join_chars};
use crate::text::{extend_str, from_chars, lower_ascii_chars, lower_ascii_seq, str_eq, to_chars};

verus! {

/// What importing a CD started: the new album and one rip job per track.
#[derive(Debug, Clone)]
pub struct CdImportResult {
    pub album_id: i64,
    pub job_ids: Vec<i64>,
}

/// The MIME type of a picked cover image: PNG by its extension (compared
/// without regard to case), JPEG otherwise.
pub open spec fn mime_for_path(path: Seq<char>) -> Seq<char> {
    match extension(path) {
        Some(e) => if lower_ascii_seq(e) == "png"@ {
            "image/png"@
        } else {
            "image/jpeg"@
        },
        None => "image/jpeg"@,
    }
}

/// The MIME type of a local image file, by its extension.
pub fn mime_from_extension(path: &str) -> (r: &'static str)
    ensures
        r@ == mime_for_path(path@),
{
    let v = to_chars(path);
    match extension_chars(&v) {
        Some(e) => {
            let l = lower_ascii_chars(&e);
            if crate::text::chars_eq(&l, &to_chars("png")) {
                "image/png"
            } else {
                "image/jpeg"
            }
        },
        None => "image/jpeg",
    }
}

/// The file a cover is saved as: `{album_id}.png` for PNG data,
/// `{album_id}.jpg` otherwise.
pub open spec fn cover_file_text(album_id: i64, mime: Seq<char>) -> Seq<char> {
    decimal(album_id as int) + "."@ + (if mime == "image/png"@ {
        "png"@
    } else {
        "jpg"@
    })
}

/// The file name a cover is saved under.
pub fn cover_file_name(album_id: i64, mime: &str) -> (r: String)
    ensures
        r@ == cover_file_text(album_id, mime@),
{
    let mut v = fmt_i64(album_id);
    extend_str(&mut v, ".");
    if str_eq(mime, "image/png") {
        extend_str(&mut v, "png");
    } else {
        extend_str(&mut v, "jpg");
    }
    from_chars(&v)
}

/// The folder covers are saved in, under the app's data folder.
pub fn cover_dir(app_data_dir: &str) -> (r: String)
    ensures
        r@ == join(app_data_dir@, "covers"@),
{
    from_chars(&join_chars(&to_chars(app_data_dir), &to_chars("covers")))
}

/// The folder an album's ripped WAV files go to, under the app's data folder.
pub open spec fn cd_rip_dir_text(app_data_dir: Seq<char>, album_id: i64) -> Seq<char> {
    join(join(app_data_dir, "cd_rips"@), decimal(album_id as int))
}

/// The rip folder of an album.
pub fn cd_rip_dir(app_data_dir: &str, album_id: i64) -> (r: String)
    ensures
        r@ == cd_rip_dir_text(app_data_dir@, album_id),
{
    let a = join_chars(&to_chars(app_data_dir), &to_chars("cd_rips"));
    from_chars(&join_chars(&a, &fmt_i64(album_id)))
}

/// The album title and artist a CD import records: the chosen release's,
/// or "Unknown Album (CD import)" and no artist without one.
pub fn cd_album_header(detail: &Option<ReleaseDetail>) -> (r: (String, Option<String>))
    ensures
        match detail {
            Some(d) => r.0 == d.title && r.1 == Some(d.artist),
            None => r.0@ == "Unknown Album (CD import)"@ && r.1 is None,
        },
{
    match detail {
        Some(d) => (d.title.clone(), Some(d.artist.clone())),
        None => (String::from_str("Unknown Album (CD import)"), None),
    }
}

/// The first listed track of the release with this number, if any.
pub open spec fn listed_track(tracks: Seq<MbReleaseTrack>, number: i64) -> Option<MbReleaseTrack>
    decreases tracks.len(),
{
    if tracks.len() == 0 {
        None
    } else if tracks[0].number == number {
        Some(tracks[0])
    } else {
        listed_track(tracks.drop_first(), number)
    }
}

/// The listed track for a disc track, when a release was chosen.
pub open spec fn release_track_for(detail: Option<ReleaseDetail>, number: i64) -> Option<MbReleaseTrack> {
    match detail {
        Some(d) => listed_track(d.tracks@, number),
        None => None,
    }
}

fn find_release_track(detail: &Option<ReleaseDetail>, number: i64) -> (r: Option<&MbReleaseTrack>)
    ensures
        match r {
            Some(t) => release_track_for(*detail, number) == Some(*t),
            None => release_track_for(*detail, number) is None,
        },
{
    match detail {
        None => None,
        Some(d) => {
            let ghost all = d.tracks@;
            let mut i: usize = 0;
            assert(all.skip(0) == all);
            while i < d.tracks.len()
                invariant
                    i <= d.tracks.len(),
                    all == d.tracks@,
                    release_track_for(*detail, number) == listed_track(all, number),
                    listed_track(all, number) == listed_track(all.skip(i as int), number),
                decreases d.tracks.len() - i,
            {
                assert(all.skip(i as int)[0] == all[i as int]);
                if d.tracks[i].number == number {
                    return Some(&d.tracks[i]);
                }
                assert(all.skip(i as int).drop_first() == all.skip(i + 1));
                i += 1;
            }
            None
        },
    }
}

/// The plan for one disc track: its number and duration, the release's
/// title and artist for it (else "Track N" and no artist), and the WAV
/// file `{rip_dir}/{NN}.wav` it will be ripped to.
pub open spec fn planned_track_ok(p: PlannedTrack, t: DiscTrack, detail: Option<ReleaseDetail>, rip_dir: Seq<char>) -> bool {
    &&& p.track_number == t.number as i64
    &&& p.duration_ms == t.duration_ms
    &&& p.title@ == match release_track_for(detail, t.number as i64) {
        Some(r) => r.title@,
        None => "Track "@ + decimal(t.number as int),
    }
    &&& opt_view(p.artist) == match release_track_for(detail, t.number as i64) {
        Some(r) => opt_view(r.artist),
        None => None,
    }
    &&& p.source_path@ == join(rip_dir, decimal_pad2(t.number as int) + ".wav"@)
}

/// The tracks a CD import creates, one per disc track, in disc order.
pub fn plan_cd_tracks(disc: &DiscInfo, detail: &Option<ReleaseDetail>, rip_dir: &str) -> (r: Vec<PlannedTrack>)
    ensures
        r.len() == disc.tracks.len(),
        forall|k: int|
            0 <= k < r.len() ==> planned_track_ok(#[trigger] r@[k], disc.tracks@[k], *detail, rip_dir@),
{
    let dir = to_chars(rip_dir);
    let mut out: Vec<PlannedTrack> = Vec::new();
    let mut i: usize = 0;
    while i < disc.tracks.len()
        invariant
            i <= disc.tracks.len(),
            dir@ == rip_dir@,
            out.len() == i,
            forall|k: int|
                0 <= k < i ==> planned_track_ok(#[trigger] out@[k], disc.tracks@[k], *detail, rip_dir@),
        decreases disc.tracks.len() - i,
    {
        let t = &disc.tracks[i];
        let number = t.number as i64;
        let listed = find_release_track(detail, number);
        let title = match listed {
            Some(r) => r.title.clone(),
            None => {
                let mut v = to_chars("Track ");
                crate::text::extend_chars(&mut v, &fmt_i64(number));
                from_chars(&v)
            },
        };
        let artist = match listed {
            Some(r) => crate::folder_scan::copy_opt(&r.artist),
            None => None,
        };
        let mut file = fmt_i64_pad2(number);
        extend_str(&mut file, ".wav");
        let path = from_chars(&join_chars(&dir, &file));
        out.push(PlannedTrack {
            track_number: number,
            title,
            artist,
            duration_ms: t.duration_ms,
            source_path: path,
        });
        i += 1;
    }
    out
}

} // verus!
