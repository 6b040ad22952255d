//! A disc's table of contents as read off the drive: track numbers, their
//! lengths in sectors, and durations derived from them.

use vstd::prelude::*;

verus! {

/// One track's TOC entry as read off the disc: its length in sectors (CD-DA
/// frames, 75/sec, fixed by the Red Book spec) and the millisecond duration
/// derived from it.
#[derive(Debug, Clone)]
pub struct DiscTrack {
    pub number: i32,
    pub sectors: i64,
    pub duration_ms: i64,
}

/// A disc's MusicBrainz disc ID and its tracks.
#[derive(Debug, Clone)]
pub struct DiscInfo {
    pub disc_id: String,
    pub tracks: Vec<DiscTrack>,
}

/// Integer division rounding toward zero, as `/` does on Rust integers.
pub open spec fn div_toward_zero(a: int, b: int) -> int {
    if a >= 0 {
        a / b
    } else {
        -((-a) / b)
    }
}

/// The duration of `sectors` CD-DA frames in milliseconds: `sectors * 1000 / 75`.
pub open spec fn sectors_to_ms(sectors: int) -> int {
    div_toward_zero(sectors * 1000, 75)
}

/// One TOC entry with its duration.
pub fn disc_track(number: i32, sectors: i32) -> (t: DiscTrack)
    ensures
        t.number == number,
        t.sectors == sectors as i64,
        t.duration_ms == sectors_to_ms(sectors as int),
{
    let s = sectors as i64;
    let ms = if s >= 0 {
        (s * 1000) / 75
    } else {
        -(((-s) * 1000) / 75)
    };
    DiscTrack { number, sectors: s, duration_ms: ms }
}

/// The disc info for a disc ID and its `(track number, sectors)` TOC
/// entries, in disc order.
pub fn disc_info(disc_id: String, toc: &Vec<(i32, i32)>) -> (d: DiscInfo)
    ensures
        d.disc_id == disc_id,
        d.tracks.len() == toc.len(),
        forall|i: int|
            0 <= i < toc.len() ==> {
                let t = #[trigger] d.tracks@[i];
                &&& t.number == toc@[i].0
                &&& t.sectors == toc@[i].1 as i64
                &&& t.duration_ms == sectors_to_ms(toc@[i].1 as int)
            },
{
    let mut tracks: Vec<DiscTrack> = Vec::new();
    let mut i: usize = 0;
    while i < toc.len()
        invariant
            i <= toc.len(),
            tracks.len() == i,
            forall|j: int|
                0 <= j < i ==> {
                    let t = #[trigger] tracks@[j];
                    &&& t.number == toc@[j].0
                    &&& t.sectors == toc@[j].1 as i64
                    &&& t.duration_ms == sectors_to_ms(toc@[j].1 as int)
                },
        decreases toc.len() - i,
    {
        let (n, s) = toc[i];
        tracks.push(disc_track(n, s));
        i += 1;
    }
    DiscInfo { disc_id, tracks }
}

} // verus!
