//! Finding an inserted audio CD in `diskutil list` output.

use vstd::prelude::*;
use crate::disc_id::DiscInfo;
use crate::text::{
    contains, contains_chars, first_word, first_word_range, from_chars, lines, lines_chars,
    slice_chars, starts_with, starts_with_chars, to_chars, trim, trim_chars, views,
};

verus! {

/// Info about a detected audio CD, returned to the frontend before ripping
/// starts. `disc_id` is `None` when libdiscid couldn't read the TOC (drive
/// busy, disc still spinning up) -- the caller should still allow ripping,
/// just without a MusicBrainz disc-ID match.
#[derive(Debug, Clone)]
pub struct CdInfo {
    pub device: String,
    pub disc_id: Option<String>,
    pub track_count: i32,
}

/// Walks `diskutil list` lines: a `/dev/...` header names the current
/// disk, and the first `CD_DA` line under a named disk yields that disk.
pub open spec fn scan_diskutil(ls: Seq<Seq<char>>, current: Option<Seq<char>>) -> Option<
    Seq<char>,
>
    decreases ls.len(),
{
    if ls.len() == 0 {
        None
    } else {
        let t = trim(ls[0]);
        if starts_with(t, "/dev/"@) {
            scan_diskutil(ls.drop_first(), first_word(t.skip(5)))
        } else if contains(t, "CD_DA"@) && current is Some {
            Some("/dev/"@ + current.unwrap())
        } else {
            scan_diskutil(ls.drop_first(), current)
        }
    }
}

/// The whole-disk device path of the audio CD listed in `text`, if any.
pub open spec fn diskutil_cd_device(text: Seq<char>) -> Option<Seq<char>> {
    scan_diskutil(lines(text), None)
}

/// Pure parser behind CD detection: scans `diskutil list` output for a disk
/// whose partition scheme includes a `CD_DA` slice -- macOS's marker for an
/// inserted audio CD -- and returns its whole-disk BSD device path (e.g.
/// `/dev/disk3`), the path libdiscid and `cd-paranoia` both expect.
pub fn parse_diskutil_list(text: &str) -> (r: Option<String>)
    ensures
        match r {
            Some(p) => diskutil_cd_device(text@) == Some(p@),
            None => diskutil_cd_device(text@) is None,
        },
{
    let chars = to_chars(text);
    let ls = lines_chars(&chars);
    let ghost all = views(ls@);
    let dev = to_chars("/dev/");
    let marker = to_chars("CD_DA");
    proof {
        reveal_strlit("/dev/");
    }
    let mut current: Option<Vec<char>> = None;
    let mut i: usize = 0;
    assert(all.skip(0) == all);
    while i < ls.len()
        invariant
            i <= ls.len(),
            all == views(ls@),
            all == lines(text@),
            dev@ == "/dev/"@,
            dev@.len() == 5,
            marker@ == "CD_DA"@,
            scan_diskutil(all, None) == scan_diskutil(
                all.skip(i as int),
                match current {
                    Some(c) => Some(c@),
                    None => None,
                },
            ),
        decreases ls.len() - i,
    {
        let t = trim_chars(&ls[i]);
        assert(all.skip(i as int)[0] == ls@[i as int]@);
        assert(all.skip(i as int).drop_first() == all.skip(i + 1));
        if starts_with_chars(&t, &dev) {
            current = match first_word_range(&t, 5, t.len()) {
                Some((a, b)) => Some(slice_chars(&t, a, b)),
                None => None,
            };
            assert(t@.subrange(5, t@.len() as int) == t@.skip(5));
        } else if contains_chars(&t, &marker) {
            match &current {
                Some(disk) => {
                    let mut out = to_chars("/dev/");
                    crate::text::extend_chars(&mut out, disk);
                    assert(t@ == trim(all.skip(i as int)[0]));
                    assert(scan_diskutil(all.skip(i as int), Some(disk@)) == Some(out@));
                    return Some(from_chars(&out));
                },
                None => {},
            }
        }
        i += 1;
    }
    None
}


/// A detected CD's info: its device, and its disc ID and track count when
/// its table of contents could be read (none and zero otherwise).
pub fn cd_info_from(device: String, disc: Result<DiscInfo, String>) -> (r: CdInfo)
    ensures
        r.device == device,
        match disc {
            Ok(d) => r.disc_id == Some(d.disc_id) && r.track_count == d.tracks.len() as i32,
            Err(_) => r.disc_id is None && r.track_count == 0,
        },
{
    match disc {
        Ok(d) => {
            let n = #[verifier::truncate] (d.tracks.len() as i32);
            CdInfo { device, disc_id: Some(d.disc_id), track_count: n }
        },
        Err(_) => CdInfo { device, disc_id: None, track_count: 0 },
    }
}

/// A disk found in `diskutil list` output is a whole-disk device path:
/// `/dev/` followed by the disk's non-empty name.
pub proof fn law_cd_device_path(text: Seq<char>)
    ensures
        diskutil_cd_device(text) matches Some(p) ==> starts_with(p, "/dev/"@) && p.len() > 5,
{
    lemma_scan_shape(lines(text), None);
}

proof fn lemma_scan_shape(ls: Seq<Seq<char>>, current: Option<Seq<char>>)
    requires
        current matches Some(c) ==> c.len() > 0,
    ensures
        scan_diskutil(ls, current) matches Some(p) ==> starts_with(p, "/dev/"@) && p.len() > 5,
    decreases ls.len(),
{
    reveal_strlit("/dev/");
    if ls.len() > 0 {
        let t = trim(ls[0]);
        if starts_with(t, "/dev/"@) {
            let fw = first_word(t.skip(5));
            if fw is Some {
                crate::text::lemma_trim_start_shape(t.skip(5));
                lemma_take_word_nonempty(crate::text::trim_start(t.skip(5)));
            }
            lemma_scan_shape(ls.drop_first(), fw);
        } else if contains(t, "CD_DA"@) && current is Some {
            let p = "/dev/"@ + current.unwrap();
            assert(p.take(5) == "/dev/"@);
        } else {
            lemma_scan_shape(ls.drop_first(), current);
        }
    }
}

proof fn lemma_take_word_nonempty(s: Seq<char>)
    requires
        s.len() > 0,
        !crate::text::is_ws(s[0]),
    ensures
        crate::text::take_word(s).len() > 0,
{
}

} // verus!
