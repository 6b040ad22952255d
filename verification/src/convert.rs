//! Conversion planning: target containers, output paths, and the `ffmpeg`
//! command line for each target format.

use vstd::prelude::*;
use crate::models::{Album, Track, opt_view, string_views};
use crate::numbers::{decimal_pad2, fmt_i64_pad2, parse_i64, parse_i64_chars};
use crate::paths::{join, join_chars};
use crate::text::{
    extend_chars, extend_str, from_chars, is_ws, slice_chars, starts_with, starts_with_chars,
    str_eq, to_chars, trim, trim_chars, trim_end, trim_start,
};

verus! {

/// What the Convert dialog asks for: target format, its quality setting
/// (libmp3lame `-q:a` value, flac `-compression_level`, or aac `-b:a`
/// bitrate such as `"256k"`) and the output root folder.
#[derive(Debug, Clone)]
pub struct ConvertOptions {
    pub format: String,
    pub quality: String,
    pub output_dir: String,
}

/// The container extension for a target format. ALAC and AAC both need
/// `.m4a`, not their codec name, or the iPod refuses to recognize the file.
pub open spec fn format_extension(format: Seq<char>) -> Option<Seq<char>> {
    if format == "mp3"@ {
        Some("mp3"@)
    } else if format == "alac"@ {
        Some("m4a"@)
    } else if format == "aac"@ {
        Some("m4a"@)
    } else if format == "flac"@ {
        Some("flac"@)
    } else {
        None
    }
}

/// The error for a target format that is not one of mp3, alac, aac, flac.
pub open spec fn unsupported_format_message(format: Seq<char>) -> Seq<char> {
    "unsupported target format: "@ + format
}

fn unsupported_format(format: &str) -> (m: String)
    ensures
        m@ == unsupported_format_message(format@),
{
    let mut m = String::from_str("unsupported target format: ");
    m.append(format);
    m
}

/// Container extension for a target format.
pub fn extension_for_format(format: &str) -> (r: Result<&'static str, String>)
    ensures
        match r {
            Ok(e) => format_extension(format@) == Some(e@),
            Err(m) => format_extension(format@) is None && m@ == unsupported_format_message(
                format@,
            ),
        },
{
    if str_eq(format, "mp3") {
        Ok("mp3")
    } else if str_eq(format, "alac") {
        Ok("m4a")
    } else if str_eq(format, "aac") {
        Ok("m4a")
    } else if str_eq(format, "flac") {
        Ok("flac")
    } else {
        Err(unsupported_format(format))
    }
}

/// A character that cannot stand in a file name component is replaced by `-`.
pub open spec fn path_safe_char(c: char) -> char {
    if c == '/' || c == '\\' || c == ':' {
        '-'
    } else {
        c
    }
}

/// `/`, `\` and `:` replaced by `-`, then surrounding whitespace trimmed.
pub open spec fn sanitize(s: Seq<char>) -> Seq<char> {
    trim(s.map_values(|c: char| path_safe_char(c)))
}

/// Strips characters that are awkward or illegal in macOS/iPod filesystem
/// paths (`/` above all -- artist/album/title text routinely contains it,
/// e.g. "AC/DC" or "Rock/Pop").
pub fn sanitize_path_component(s: &str) -> (r: String)
    ensures
        r@ == sanitize(s@),
{
    let v = to_chars(s);
    let mapped = sanitize_map(&v);
    let t = trim_chars(&mapped);
    from_chars(&t)
}

fn sanitize_map(v: &Vec<char>) -> (r: Vec<char>)
    ensures
        r@ == v@.map_values(|c: char| path_safe_char(c)),
{
    let mut r: Vec<char> = Vec::new();
    let mut i: usize = 0;
    while i < v.len()
        invariant
            i <= v.len(),
            r@ == v@.take(i as int).map_values(|c: char| path_safe_char(c)),
        decreases v.len() - i,
    {
        let c = v[i];
        let d = if c == '/' || c == '\\' || c == ':' {
            '-'
        } else {
            c
        };
        r.push(d);
        assert(v@.take(i + 1).map_values(|c: char| path_safe_char(c)) == v@.take(
            i as int,
        ).map_values(|c: char| path_safe_char(c)).push(path_safe_char(v@[i as int])));
        i += 1;
    }
    assert(v@.take(v.len() as int) == v@);
    r
}

/// The artist folder: the track's own artist, else the album artist, else
/// "Unknown Artist".
pub open spec fn artist_for(album: Album, track: Track) -> Seq<char> {
    match opt_view(track.artist) {
        Some(a) => a,
        None => match opt_view(album.album_artist) {
            Some(a) => a,
            None => "Unknown Artist"@,
        },
    }
}

/// The track number as two digits, `"00"` when the track has none.
pub open spec fn track_number_label(n: Option<i64>) -> Seq<char> {
    match n {
        Some(k) => decimal_pad2(k as int),
        None => "00"@,
    }
}

/// `{output_dir}/{Artist}/{Album}/{NN} {Title}.{ext}` for a supported format.
pub open spec fn output_path(album: Album, track: Track, options: ConvertOptions) -> Option<
    Seq<char>,
> {
    match format_extension(options.format@) {
        None => None,
        Some(ext) => {
            let file = track_number_label(track.track_number) + " "@ + sanitize(track.title@)
                + "."@ + ext;
            Some(
                join(
                    join(join(options.output_dir@, sanitize(artist_for(album, track))), sanitize(album.title@)),
                    file,
                ),
            )
        },
    }
}

/// Builds `{output_dir}/{Artist}/{Album}/{NN} {Title}.ext`, the default
/// layout of the Convert dialog. Path components are sanitized.
pub fn build_output_path(album: &Album, track: &Track, options: &ConvertOptions) -> (r: Result<
    String,
    String,
>)
    ensures
        match r {
            Ok(p) => output_path(*album, *track, *options) == Some(p@),
            Err(m) => output_path(*album, *track, *options) is None && m@
                == unsupported_format_message(options.format@),
        },
{
    let ext = match extension_for_format(options.format.as_str()) {
        Ok(e) => e,
        Err(m) => return Err(m),
    };
    let artist_src: &str = match &track.artist {
        Some(a) => a.as_str(),
        None => match &album.album_artist {
            Some(a) => a.as_str(),
            None => "Unknown Artist",
        },
    };
    let artist = to_chars(sanitize_path_component(artist_src).as_str());
    let album_title = to_chars(sanitize_path_component(album.title.as_str()).as_str());
    let mut file: Vec<char> = match track.track_number {
        Some(n) => fmt_i64_pad2(n),
        None => to_chars("00"),
    };
    extend_str(&mut file, " ");
    let title = sanitize_path_component(track.title.as_str());
    extend_str(&mut file, title.as_str());
    extend_str(&mut file, ".");
    extend_str(&mut file, ext);
    let root = to_chars(options.output_dir.as_str());
    let p1 = join_chars(&root, &artist);
    let p2 = join_chars(&p1, &album_title);
    let p3 = join_chars(&p2, &file);
    Ok(from_chars(&p3))
}

/// The codec arguments of each target format.
pub open spec fn codec_arg_list(format: Seq<char>, quality: Seq<char>) -> Option<Seq<Seq<char>>> {
    if format == "mp3"@ {
        Some(seq!["-c:a"@, "libmp3lame"@, "-q:a"@, quality])
    } else if format == "flac"@ {
        Some(seq!["-c:a"@, "flac"@, "-compression_level"@, quality])
    } else if format == "alac"@ {
        Some(seq!["-c:a"@, "alac"@, "-f"@, "ipod"@])
    } else if format == "aac"@ {
        Some(seq!["-c:a"@, "aac"@, "-b:a"@, quality, "-f"@, "ipod"@])
    } else {
        None
    }
}

fn owned(s: &str) -> (r: String)
    ensures
        r@ == s@,
{
    String::from_str(s)
}

/// Appends an owned copy of `s` to a list of strings.
pub fn push_str(args: &mut Vec<String>, s: &str)
    ensures
        string_views(final(args)@) == string_views(old(args)@).push(s@),
{
    args.push(String::from_str(s));
    assert(string_views(args@) =~= string_views(old(args)@).push(s@));
}

/// The `ffmpeg` codec arguments for the target format: libmp3lame with a
/// `-q:a` quality, flac with a compression level, and ALAC/AAC forced into
/// the iPod (mov/mp4) muxer.
pub fn codec_args(options: &ConvertOptions) -> (r: Result<Vec<String>, String>)
    ensures
        match r {
            Ok(args) => codec_arg_list(options.format@, options.quality@) == Some(
                string_views(args@),
            ),
            Err(m) => codec_arg_list(options.format@, options.quality@) is None && m@
                == unsupported_format_message(options.format@),
        },
{
    let f = options.format.as_str();
    let mut args: Vec<String> = Vec::new();
    if str_eq(f, "mp3") {
        args.push(owned("-c:a"));
        args.push(owned("libmp3lame"));
        args.push(owned("-q:a"));
        args.push(options.quality.clone());
    } else if str_eq(f, "flac") {
        args.push(owned("-c:a"));
        args.push(owned("flac"));
        args.push(owned("-compression_level"));
        args.push(options.quality.clone());
    } else if str_eq(f, "alac") {
        args.push(owned("-c:a"));
        args.push(owned("alac"));
        args.push(owned("-f"));
        args.push(owned("ipod"));
    } else if str_eq(f, "aac") {
        args.push(owned("-c:a"));
        args.push(owned("aac"));
        args.push(owned("-b:a"));
        args.push(options.quality.clone());
        args.push(owned("-f"));
        args.push(owned("ipod"));
    } else {
        return Err(unsupported_format(f));
    }
    assert(string_views(args@) == codec_arg_list(options.format@, options.quality@).unwrap());
    Ok(args)
}


/// A sanitized component holds no `/`, `\` or `:`, has no whitespace at
/// either end, and sanitizing it again changes nothing.
pub proof fn law_sanitize_component(s: Seq<char>)
    ensures
        forall|i: int|
            0 <= i < sanitize(s).len() ==> #[trigger] sanitize(s)[i] != '/' && sanitize(s)[i]
                != '\\' && sanitize(s)[i] != ':',
        sanitize(s).len() > 0 ==> !is_ws(sanitize(s)[0]) && !is_ws(sanitize(s).last()),
        sanitize(sanitize(s)) == sanitize(s),
{
    let m = s.map_values(|c: char| path_safe_char(c));
    crate::text::lemma_trim_shape(m);
    let t = sanitize(s);
    let (a, b) = choose|a: int, b: int| 0 <= a <= b <= m.len() && t == m.subrange(a, b);
    assert forall|i: int| 0 <= i < t.len() implies #[trigger] t[i] != '/' && t[i] != '\\' && t[i]
        != ':' by {
        assert(t[i] == m[a + i]);
    }
    assert(t.map_values(|c: char| path_safe_char(c)) == t);
    crate::text::lemma_trim_idempotent(m);
}

/// `c` with the characters that cannot stand in a path component (`/`,
/// `\`, `:`) turned into `-`.
pub open spec fn component_char(c: char) -> char {
    if c == '/' || c == '\\' || c == ':' {
        '-'
    } else {
        c
    }
}

/// `t` is `s` made fit to be one path component: every `/`, `\` and `:`
/// turned into `-`, and the whitespace at both ends dropped (and nothing
/// else), so that `t` holds no separator.
pub open spec fn cleaned_component(s: Seq<char>, t: Seq<char>) -> bool {
    let m = s.map_values(|c: char| component_char(c));
    &&& forall|i: int| 0 <= i < t.len() ==> #[trigger] t[i] != '/' && t[i] != '\\' && t[i] != ':'
    &&& (t.len() > 0 ==> !is_ws(t[0]) && !is_ws(t.last()))
    &&& exists|a: int, b: int|
        0 <= a <= b <= m.len() && t == m.subrange(a, b) && (forall|i: int|
            0 <= i < a ==> is_ws(#[trigger] m[i])) && (forall|i: int| b <= i < m.len() ==> is_ws(#[trigger] m[i]))
}

/// The first of two optional names that is present, else "Unknown Artist".
pub open spec fn first_name(a: Option<Seq<char>>, b: Option<Seq<char>>) -> Seq<char> {
    if a is Some {
        a->0
    } else if b is Some {
        b->0
    } else {
        "Unknown Artist"@
    }
}

proof fn lemma_sanitize_cleaned(s: Seq<char>)
    ensures
        cleaned_component(s, sanitize(s)),
{
    let m = s.map_values(|c: char| path_safe_char(c));
    assert(m == s.map_values(|c: char| component_char(c)));
    crate::text::lemma_trim_cuts_whitespace(m);
    law_sanitize_component(s);
}

/// The output path of a conversion is `{output_dir}/{Artist}/{Album}/{NN}
/// {Title}.{ext}` for a supported format and none otherwise: the output
/// folder joined with exactly three components, the artist folder (the
/// track's artist, else the album artist, else "Unknown Artist"), the album
/// folder and the file name, each cleaned of `/`, `\` and `:` so that none
/// adds a directory level; the file name is the two-digit track label, a
/// space, the cleaned title, a dot and the format's extension.
pub proof fn law_output_path_layout(album: Album, track: Track, options: ConvertOptions)
    ensures
        output_path(album, track, options) is Some <==> format_extension(options.format@) is Some,
        output_path(album, track, options) matches Some(p) ==> (format_extension(options.format@) matches Some(ext)
            && exists|artist: Seq<char>, album_dir: Seq<char>, title: Seq<char>|
            #![trigger cleaned_component(track.title@, title), cleaned_component(album.title@, album_dir), cleaned_component(first_name(opt_view(track.artist), opt_view(album.album_artist)), artist)]
            cleaned_component(
                first_name(opt_view(track.artist), opt_view(album.album_artist)),
                artist,
            ) && cleaned_component(album.title@, album_dir) && cleaned_component(track.title@, title)
                && p == join(
                join(join(options.output_dir@, artist), album_dir),
                track_number_label(track.track_number) + " "@ + title + "."@ + ext,
            )),
{
    let a = first_name(opt_view(track.artist), opt_view(album.album_artist));
    assert(a == artist_for(album, track));
    lemma_sanitize_cleaned(a);
    lemma_sanitize_cleaned(album.title@);
    lemma_sanitize_cleaned(track.title@);
}

/// The track label of a file name: `"00"` without a track number, and the
/// number's two digits (tens, then units) for a number below 100.
pub proof fn law_track_label(n: Option<i64>)
    ensures
        n is None ==> track_number_label(n) == "00"@,
        n is Some && 0 <= n->0 < 100 ==> track_number_label(n) == seq![
            ((48 + n->0 / 10) as char),
            ((48 + n->0 % 10) as char),
        ],
{
    reveal_strlit("00");
    if let Some(k) = n {
        if 0 <= k < 100 {
            reveal_with_fuel(crate::numbers::nat_digits, 2);
            if k >= 10 {
                assert(crate::numbers::nat_digits(k as nat) == crate::numbers::nat_digits((k / 10) as nat).push(
                    crate::numbers::digit_char((k % 10) as int),
                ));
            }
        }
    }
}

/// A format has a container extension exactly when it has codec arguments:
/// the output path and the `ffmpeg` command accept the same formats.
pub proof fn law_supported_formats_agree(format: Seq<char>, quality: Seq<char>)
    ensures
        format_extension(format) is Some <==> codec_arg_list(format, quality) is Some,
        format_extension(format) is Some <==> (format == "mp3"@ || format == "alac"@ || format
            == "aac"@ || format == "flac"@),
{
}

/// The full `ffmpeg` argument list for one conversion: all audio streams
/// and any cover-art video stream mapped, codec arguments, the cover kept
/// as an attached picture, machine-readable progress on stdout, and the
/// output path last.
pub open spec fn ffmpeg_arg_list(source: Seq<char>, output: Seq<char>, codec: Seq<Seq<char>>) -> Seq<
    Seq<char>,
> {
    seq!["-y"@, "-i"@, source, "-map"@, "0:a"@, "-map"@, "0:v?"@] + codec + seq![
        "-c:v"@,
        "copy"@,
        "-disposition:v"@,
        "attached_pic"@,
        "-progress"@,
        "pipe:1"@,
        "-nostats"@,
        "-loglevel"@,
        "error"@,
        output,
    ]
}

/// The arguments `ffmpeg` is run with to convert `source` into `output`.
pub fn ffmpeg_args(source: &str, output: &str, options: &ConvertOptions) -> (r: Result<
    Vec<String>,
    String,
>)
    ensures
        match r {
            Ok(args) => codec_arg_list(options.format@, options.quality@) matches Some(c)
                && string_views(args@) == ffmpeg_arg_list(source@, output@, c),
            Err(m) => codec_arg_list(options.format@, options.quality@) is None && m@
                == unsupported_format_message(options.format@),
        },
{
    let codec = match codec_args(options) {
        Ok(c) => c,
        Err(m) => return Err(m),
    };
    let mut args: Vec<String> = Vec::new();
    push_str(&mut args, "-y");
    push_str(&mut args, "-i");
    push_str(&mut args, source);
    push_str(&mut args, "-map");
    push_str(&mut args, "0:a");
    push_str(&mut args, "-map");
    push_str(&mut args, "0:v?");
    let ghost head = string_views(args@);
    let mut i: usize = 0;
    while i < codec.len()
        invariant
            i <= codec.len(),
            string_views(args@) == head + string_views(codec@).take(i as int),
        decreases codec.len() - i,
    {
        push_str(&mut args, codec[i].as_str());
        assert(string_views(codec@).take(i + 1) == string_views(codec@).take(i as int).push(
            codec@[i as int]@,
        ));
        i += 1;
    }
    assert(string_views(codec@).take(codec.len() as int) == string_views(codec@));
    let ghost mid = string_views(args@);
    push_str(&mut args, "-c:v");
    push_str(&mut args, "copy");
    push_str(&mut args, "-disposition:v");
    push_str(&mut args, "attached_pic");
    push_str(&mut args, "-progress");
    push_str(&mut args, "pipe:1");
    push_str(&mut args, "-nostats");
    push_str(&mut args, "-loglevel");
    push_str(&mut args, "error");
    push_str(&mut args, output);
    assert(string_views(args@) =~= ffmpeg_arg_list(source@, output@, string_views(codec@)));
    Ok(args)
}

/// How an external tool's run ends: success, a kill (no exit code, as after
/// a cancel), or a failure that carries the tool's error output.
pub open spec fn tool_outcome(tool: Seq<char>, success: bool, has_exit_code: bool, errors: Seq<
    char,
>) -> Result<(), Seq<char>> {
    if success {
        Ok(())
    } else if !has_exit_code {
        Err("cancelled"@)
    } else {
        Err(tool + " exited with error: "@ + errors)
    }
}

/// Turns the exit status of `ffmpeg` or `cd-paranoia` into the job result:
/// a process killed by a signal (no exit code) was cancelled.
pub fn process_outcome(tool: &str, success: bool, has_exit_code: bool, errors: &str) -> (r: Result<
    (),
    String,
>)
    ensures
        match (r, tool_outcome(tool@, success, has_exit_code, errors@)) {
            (Ok(()), Ok(())) => true,
            (Err(m), Err(n)) => m@ == n,
            _ => false,
        },
{
    if success {
        Ok(())
    } else if !has_exit_code {
        Err(owned("cancelled"))
    } else {
        let mut m = owned(tool);
        m.append(" exited with error: ");
        m.append(errors);
        Err(m)
    }
}

/// The `out_time_us=` value of an `ffmpeg -progress` line, if it is one.
pub open spec fn out_time_us(line: Seq<char>) -> Option<i64> {
    if starts_with(line, "out_time_us="@) {
        parse_i64(line.skip(12))
    } else {
        None
    }
}

/// Reads the microseconds written so far off one `ffmpeg -progress` line.
pub fn parse_out_time_us(line: &str) -> (r: Option<i64>)
    ensures
        r == out_time_us(line@),
{
    let v = to_chars(line);
    let p = to_chars("out_time_us=");
    assert(p@.len() == 12) by {
        reveal_strlit("out_time_us=");
    }
    if !starts_with_chars(&v, &p) {
        return None;
    }
    let rest = slice_chars(&v, 12, v.len());
    assert(rest@ == v@.skip(12));
    parse_i64_chars(&rest)
}

} // verus!
