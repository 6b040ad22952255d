use podforge::cd_detect::{cd_info_from, parse_diskutil_list};
use podforge::cd_rip::{cd_paranoia_args, parse_sector};
use podforge::disc_id::disc_info;
use podforge::folder_scan::{
    albums_from_files, is_apple_double, is_audio_file, parse_tag_number, ScannedFile,
};

#[test]
fn finds_the_cd_da_disk_and_returns_its_whole_disk_path() {
    let output = "\
/dev/disk0 (internal, physical):
   #:                       TYPE NAME                    SIZE       IDENTIFIER
   0:      GUID_partition_scheme                        *500.3 GB   disk0

/dev/disk3 (external, physical):
   #:                       TYPE NAME                    SIZE       IDENTIFIER
   0:     CD_partition_scheme                            *702.8 MB  disk3
   1:                       CD_DA                         702.8 MB  disk3s0
";
    assert_eq!(parse_diskutil_list(output).as_deref(), Some("/dev/disk3"));
}

#[test]
fn no_cd_da_entry_returns_none() {
    let output = "\
/dev/disk0 (internal, physical):
   #:                       TYPE NAME                    SIZE       IDENTIFIER
   0:      GUID_partition_scheme                        *500.3 GB   disk0
   1:                  Apple_APFS Container disk1        500.0 GB   disk0s2
";
    assert_eq!(parse_diskutil_list(output), None);
}

#[test]
fn empty_output_returns_none() {
    assert_eq!(parse_diskutil_list(""), None);
}

#[test]
fn cd_da_before_any_disk_header_is_ignored() {
    assert_eq!(parse_diskutil_list("  1: CD_DA 700 MB disk9s0\n"), None);
    let crlf = "/dev/disk4 (external):\r\n   1: CD_DA  702.8 MB disk4s0\r\n";
    assert_eq!(parse_diskutil_list(crlf).as_deref(), Some("/dev/disk4"));
}

#[test]
fn sector_is_read_after_the_last_at_sign() {
    assert_eq!(parse_sector("##: 2 [wrote] @ 5238"), Some(5238));
    assert_eq!(parse_sector("a @ 1 @ 77 tail"), Some(77));
    assert_eq!(parse_sector("no marker here"), None);
    assert_eq!(parse_sector("##: 0 [read] @ "), None);
    assert_eq!(parse_sector("@ x12"), None);
}

#[test]
fn cd_paranoia_rips_one_track_to_wav() {
    let args = cd_paranoia_args("/dev/disk3", 7, "/tmp/07.wav");
    assert_eq!(args, vec!["-d", "/dev/disk3", "-e", "-w", "7", "/tmp/07.wav"]);
}

#[test]
fn disc_tracks_get_durations_from_sectors() {
    let info = disc_info("abc".to_string(), &vec![(1, 75), (2, 22_050), (3, -150)]);
    assert_eq!(info.disc_id, "abc");
    assert_eq!(info.tracks.len(), 3);
    assert_eq!(info.tracks[0].duration_ms, 1000);
    assert_eq!(info.tracks[1].duration_ms, 294_000);
    assert_eq!(info.tracks[2].duration_ms, -2000);
    assert_eq!(info.tracks[1].sectors, 22_050);
}

#[test]
fn cd_info_reports_toc_only_when_read() {
    let info = disc_info("id".to_string(), &vec![(1, 10), (2, 20)]);
    let ok = cd_info_from("/dev/disk3".to_string(), Ok(info));
    assert_eq!(ok.disc_id.as_deref(), Some("id"));
    assert_eq!(ok.track_count, 2);
    let err = cd_info_from("/dev/disk3".to_string(), Err("busy".to_string()));
    assert_eq!(err.disc_id, None);
    assert_eq!(err.track_count, 0);
}

#[test]
fn audio_files_are_recognized_by_extension_ignoring_case() {
    assert!(is_audio_file("/music/a/01 Song.FLAC"));
    assert!(is_audio_file("track.m4a"));
    assert!(!is_audio_file("/music/a/cover.jpg"));
    assert!(!is_audio_file("/music/a/.flac"));
    assert!(!is_audio_file("/music/a/noext"));
}

#[test]
fn apple_double_sidecars_are_detected() {
    assert!(is_apple_double("/Volumes/X/._01.flac"));
    assert!(!is_apple_double("/Volumes/X/01._flac"));
    assert!(!is_apple_double("/"));
}

#[test]
fn numeric_tags_read_the_part_before_the_slash() {
    assert_eq!(parse_tag_number("3/12"), Some(3));
    assert_eq!(parse_tag_number(" 7 "), Some(7));
    assert_eq!(parse_tag_number("1999-05-01"), None);
    assert_eq!(parse_tag_number(""), None);
    assert_eq!(parse_tag_number("+4"), Some(4));
}

fn file(path: &str, dir: &str, title: Option<&str>, track: Option<&str>, album: Option<&str>) -> ScannedFile {
    ScannedFile {
        path: path.into(),
        dir: dir.into(),
        title: title.map(String::from),
        artist: Some("Artist".into()),
        album: album.map(String::from),
        album_artist: None,
        year: Some("2001/xx".into()),
        genre: None,
        disc: None,
        track: track.map(String::from),
        duration_ms: 1000,
        codec: "Flac".into(),
    }
}

#[test]
fn scan_groups_files_by_directory_and_sorts_tracks() {
    let files = vec![
        file("/m/B/2.flac", "/m/B", Some("Two"), Some("2"), Some("Bee")),
        file("/m/A/x.FLAC", "/m/A", None, Some("3"), None),
        file("/m/B/1.flac", "/m/B", Some("One"), Some("1/9"), Some("Other")),
        file("/m/A/y.mp3", "/m/A", Some("Why"), None, None),
    ];
    let albums = albums_from_files(&files);
    assert_eq!(albums.len(), 2);
    assert_eq!(albums[0].source_path, "/m/A");
    assert_eq!(albums[0].title, "A");
    assert_eq!(albums[0].year, Some(2001));
    let titles: Vec<&str> = albums[0].tracks.iter().map(|t| t.title.as_str()).collect();
    assert_eq!(titles, vec!["Why", "x"]);
    assert_eq!(albums[0].tracks[1].container.as_deref(), Some("flac"));
    assert_eq!(albums[0].tracks[1].track_number, Some(3));
    assert_eq!(albums[1].title, "Bee");
    let titles: Vec<&str> = albums[1].tracks.iter().map(|t| t.title.as_str()).collect();
    assert_eq!(titles, vec!["One", "Two"]);
}

#[test]
fn scan_orders_directories_by_path_components() {
    let files = vec![
        file("/m/A B/1.mp3", "/m/A B", Some("s"), None, None),
        file("/m/A/x/1.mp3", "/m/A/x", Some("t"), None, None),
    ];
    let albums = albums_from_files(&files);
    assert_eq!(albums[0].source_path, "/m/A/x");
    assert_eq!(albums[1].source_path, "/m/A B");
}

#[test]
fn scan_of_root_level_directory_uses_unknown_album() {
    let files = vec![file("/a.mp3", "/", Some("s"), None, None)];
    let albums = albums_from_files(&files);
    assert_eq!(albums[0].title, "Unknown Album");
    assert!(albums_from_files(&Vec::new()).is_empty());
}
