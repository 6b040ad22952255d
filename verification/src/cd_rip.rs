//! Ripping one CD track with `cd-paranoia`: its command line and the
//! progress lines it prints.

use vstd::prelude::*;
use crate::convert::push_str;
use crate::models::string_views;
use crate::numbers::{decimal, fmt_i64, parse_i64, parse_i64_chars};
use crate::text::{first_word, first_word_range, last_index_of, rfind_char, slice_chars, to_chars, trim, trim_range};

verus! {

/// The sector offset at the end of a `cd-paranoia -e` progress line such as
/// `##: 2 [wrote] @ 5238`: the first word after the last `@`, as a number.
pub open spec fn sector_of(line: Seq<char>) -> Option<i64> {
    match last_index_of(line, '@') {
        None => None,
        Some(i) => match first_word(trim(line.skip(i + 1))) {
            None => None,
            Some(w) => parse_i64(w),
        },
    }
}

/// Extracts the trailing sector offset of a `cd-paranoia -e` progress line,
/// so it can be reported as a fraction of the track's total sector count.
pub fn parse_sector(line: &str) -> (r: Option<i64>)
    ensures
        r == sector_of(line@),
{
    let v = to_chars(line);
    let at = match rfind_char(&v, '@') {
        Some(i) => i,
        None => return None,
    };
    let (a, b) = trim_range(&v, at + 1, v.len());
    assert(v@.subrange(at + 1, v@.len() as int) == v@.skip(at + 1));
    let (c, d) = match first_word_range(&v, a, b) {
        Some(r) => r,
        None => return None,
    };
    let w = slice_chars(&v, c, d);
    parse_i64_chars(&w)
}

/// The arguments `cd-paranoia` is run with to rip one track of `device`
/// into a WAV file at `output`, printing progress on stderr.
pub open spec fn cd_paranoia_arg_list(device: Seq<char>, track_number: i32, output: Seq<char>) -> Seq<
    Seq<char>,
> {
    seq!["-d"@, device, "-e"@, "-w"@, decimal(track_number as int), output]
}

/// The `cd-paranoia` command line for one track.
pub fn cd_paranoia_args(device: &str, track_number: i32, output: &str) -> (r: Vec<String>)
    ensures
        string_views(r@) == cd_paranoia_arg_list(device@, track_number, output@),
{
    let mut args: Vec<String> = Vec::new();
    push_str(&mut args, "-d");
    push_str(&mut args, device);
    push_str(&mut args, "-e");
    push_str(&mut args, "-w");
    let n = crate::text::from_chars(&fmt_i64(track_number as i64));
    push_str(&mut args, n.as_str());
    push_str(&mut args, output);
    assert(string_views(args@) =~= cd_paranoia_arg_list(device@, track_number, output@));
    args
}

} // verus!
