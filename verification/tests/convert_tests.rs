use std::path::Path;

use podforge::convert::{
    build_output_path, codec_args, extension_for_format, ffmpeg_args, parse_out_time_us,
    process_outcome, sanitize_path_component, ConvertOptions,
};
use podforge::models::{Album, Track};

fn album() -> Album {
    Album {
        id: 1,
        title: "Rock/Pop Mix".into(),
        album_artist: Some("AC/DC".into()),
        year: Some(1980),
        genre: None,
        musicbrainz_release_id: None,
        cover_art_path: None,
        source_type: "folder".into(),
        source_path: None,
        created_at: String::new(),
        tracks: vec![],
    }
}

fn track() -> Track {
    Track {
        id: 1,
        album_id: 1,
        disc_number: Some(1),
        track_number: Some(3),
        title: "Back In Black".into(),
        artist: None,
        duration_ms: Some(255_000),
        source_path: "in.flac".into(),
        output_path: None,
        status: "pending".into(),
        musicbrainz_recording_id: None,
        codec: None,
        container: None,
    }
}

fn options(format: &str, quality: &str) -> ConvertOptions {
    ConvertOptions {
        format: format.into(),
        quality: quality.into(),
        output_dir: "/out".into(),
    }
}

fn as_str_slice(args: &[String]) -> Vec<&str> {
    args.iter().map(String::as_str).collect()
}

#[test]
fn alac_and_aac_use_m4a_container() {
    assert_eq!(extension_for_format("alac").unwrap(), "m4a");
    assert_eq!(extension_for_format("aac").unwrap(), "m4a");
    assert_eq!(extension_for_format("mp3").unwrap(), "mp3");
    assert_eq!(extension_for_format("flac").unwrap(), "flac");
    assert!(extension_for_format("wav").is_err());
}

#[test]
fn output_path_sanitizes_slashes_in_artist_and_album() {
    let path = build_output_path(&album(), &track(), &options("mp3", "2")).unwrap();
    assert_eq!(
        Path::new(&path),
        Path::new("/out/AC-DC/Rock-Pop Mix/03 Back In Black.mp3")
    );
}

#[test]
fn output_path_falls_back_to_album_artist_when_track_artist_missing() {
    let path = build_output_path(&album(), &track(), &options("alac", "")).unwrap();
    let path = Path::new(&path);
    assert!(path.starts_with("/out/AC-DC"));
    assert_eq!(path.extension().unwrap(), "m4a");
}

#[test]
fn output_path_zero_pads_missing_track_number() {
    let mut t = track();
    t.track_number = None;
    let path = build_output_path(&album(), &t, &options("flac", "5")).unwrap();
    let path = Path::new(&path);
    assert!(path.file_name().unwrap().to_str().unwrap().starts_with("00 "));
}

#[test]
fn mp3_codec_args_use_libmp3lame_quality() {
    let args = codec_args(&options("mp3", "2")).unwrap();
    assert_eq!(as_str_slice(&args), vec!["-c:a", "libmp3lame", "-q:a", "2"]);
}

#[test]
fn flac_codec_args_use_compression_level() {
    let args = codec_args(&options("flac", "5")).unwrap();
    assert_eq!(as_str_slice(&args), vec!["-c:a", "flac", "-compression_level", "5"]);
}

#[test]
fn alac_codec_args_force_ipod_muxer() {
    let args = codec_args(&options("alac", "")).unwrap();
    assert_eq!(as_str_slice(&args), vec!["-c:a", "alac", "-f", "ipod"]);
}

#[test]
fn aac_codec_args_include_bitrate_and_ipod_muxer() {
    let args = codec_args(&options("aac", "256k")).unwrap();
    assert_eq!(as_str_slice(&args), vec!["-c:a", "aac", "-b:a", "256k", "-f", "ipod"]);
}

#[test]
fn unsupported_format_is_rejected() {
    assert!(codec_args(&options("ogg", "")).is_err());
}

#[test]
fn unsupported_format_message_names_the_format() {
    assert_eq!(
        codec_args(&options("ogg", "")).unwrap_err(),
        "unsupported target format: ogg"
    );
    assert_eq!(
        build_output_path(&album(), &track(), &options("wav", "")).unwrap_err(),
        "unsupported target format: wav"
    );
}

#[test]
fn output_path_prefers_track_artist_and_pads_two_digits() {
    let mut t = track();
    t.artist = Some("  Bon: Scott ".into());
    t.track_number = Some(12);
    let path = build_output_path(&album(), &t, &options("aac", "256k")).unwrap();
    assert_eq!(path, "/out/Bon- Scott/Rock-Pop Mix/12 Back In Black.m4a");
}

#[test]
fn output_path_uses_unknown_artist_without_any_artist() {
    let mut a = album();
    a.album_artist = None;
    let path = build_output_path(&a, &track(), &options("mp3", "0")).unwrap();
    assert_eq!(path, "/out/Unknown Artist/Rock-Pop Mix/03 Back In Black.mp3");
}

#[test]
fn output_path_keeps_a_trailing_slash_of_the_output_dir_single() {
    let mut o = options("flac", "5");
    o.output_dir = "/music/".into();
    let path = build_output_path(&album(), &track(), &o).unwrap();
    assert_eq!(path, "/music/AC-DC/Rock-Pop Mix/03 Back In Black.flac");
}

#[test]
fn sanitize_replaces_separators_and_trims() {
    assert_eq!(sanitize_path_component("  a/b\\c:d \t"), "a-b-c-d");
    let once = sanitize_path_component(" x/y ");
    assert_eq!(sanitize_path_component(&once), once);
    assert_eq!(sanitize_path_component("\u{3000}日本\u{a0}"), "日本");
}

#[test]
fn ffmpeg_args_map_audio_and_cover_and_report_progress() {
    let args = ffmpeg_args("in.flac", "out.mp3", &options("mp3", "2")).unwrap();
    assert_eq!(
        as_str_slice(&args),
        vec![
            "-y", "-i", "in.flac", "-map", "0:a", "-map", "0:v?", "-c:a", "libmp3lame", "-q:a",
            "2", "-c:v", "copy", "-disposition:v", "attached_pic", "-progress", "pipe:1",
            "-nostats", "-loglevel", "error", "out.mp3"
        ]
    );
    assert!(ffmpeg_args("a", "b", &options("wma", "")).is_err());
}

#[test]
fn progress_lines_yield_microseconds() {
    assert_eq!(parse_out_time_us("out_time_us=1500000"), Some(1_500_000));
    assert_eq!(parse_out_time_us("out_time_us=-5"), Some(-5));
    assert_eq!(parse_out_time_us("out_time_us=N/A"), None);
    assert_eq!(parse_out_time_us("out_time_ms=1500"), None);
    assert_eq!(parse_out_time_us("out_time_us="), None);
}

#[test]
fn process_outcome_distinguishes_cancel_and_failure() {
    assert_eq!(process_outcome("ffmpeg", true, true, ""), Ok(()));
    assert_eq!(process_outcome("ffmpeg", false, false, "x"), Err("cancelled".to_string()));
    assert_eq!(
        process_outcome("cd-paranoia", false, true, "bad\n"),
        Err("cd-paranoia exited with error: bad\n".to_string())
    );
}
