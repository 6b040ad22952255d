use lofty::tag::{Accessor, ItemKey, Tag, TagType};
use podforge::cover_art::{check_cover_response, cover_mime, front_cover_url};
use podforge::ipod_fix::{
    codec_allowed, expected_codecs, ffprobe_args, first_audio_codec, fix_start, fix_step,
    reencode_args, FixAction, FixEvent, FixPhase, ProbeStream,
};
use podforge::models::{Album, Track};
use podforge::musicbrainz::{
    candidates_from_releases, check_discid_response, check_release_response, default_user_agent,
    discid_url, join_artist_credit, rate_limit_wait_nanos, release_detail_from_json,
    release_json_to_candidate, release_url, search_params, search_query, ArtistCreditJson,
    MediumJson, ReleaseDetailJson, ReleaseJson, ResponseCheck, TrackJson,
};
use podforge::tags::{apply_patch_checked, apply_patch_to_tag, patch_touches_album, year_fits_date, TagPatch};

fn credit(name: &str) -> ArtistCreditJson {
    ArtistCreditJson { name: name.into() }
}

#[test]
fn artist_credits_are_joined_with_commas() {
    assert_eq!(join_artist_credit(&vec![]), "");
    assert_eq!(join_artist_credit(&vec![credit("A")]), "A");
    assert_eq!(join_artist_credit(&vec![credit("A"), credit("B"), credit("C")]), "A, B, C");
}

#[test]
fn releases_become_candidates() {
    let r = ReleaseJson {
        id: "rid".into(),
        title: "T".into(),
        date: Some("1999".into()),
        country: None,
        disambiguation: Some("promo".into()),
        artist_credit: vec![credit("X"), credit("Y")],
    };
    let c = release_json_to_candidate(r.clone());
    assert_eq!(c.release_id, "rid");
    assert_eq!(c.artist, "X, Y");
    assert_eq!(c.date.as_deref(), Some("1999"));
    let all = candidates_from_releases(vec![r.clone(), r]);
    assert_eq!(all.len(), 2);
    assert_eq!(all[1].disambiguation.as_deref(), Some("promo"));
}

#[test]
fn release_detail_uses_the_first_medium_only() {
    let d = ReleaseDetailJson {
        title: "Album".into(),
        artist_credit: vec![credit("Band")],
        media: vec![
            MediumJson {
                tracks: vec![
                    TrackJson { position: 1, title: "One".into(), artist_credit: vec![] },
                    TrackJson { position: 2, title: "Two".into(), artist_credit: vec![credit("Guest"), credit("Band")] },
                ],
            },
            MediumJson { tracks: vec![TrackJson { position: 1, title: "Other".into(), artist_credit: vec![] }] },
        ],
    };
    let r = release_detail_from_json(&d);
    assert_eq!(r.title, "Album");
    assert_eq!(r.artist, "Band");
    assert_eq!(r.tracks.len(), 2);
    assert_eq!(r.tracks[0].artist, None);
    assert_eq!(r.tracks[1].artist.as_deref(), Some("Guest, Band"));
    let empty = ReleaseDetailJson { title: "E".into(), artist_credit: vec![], media: vec![] };
    assert!(release_detail_from_json(&empty).tracks.is_empty());
}

#[test]
fn search_query_drops_double_quotes() {
    assert_eq!(
        search_query("The \"Boss\"", "Born \"to\" Run"),
        "release:\"Born to Run\" AND artist:\"The Boss\""
    );
    let p = search_params("q");
    assert_eq!(p[0], ("query".to_string(), "q".to_string()));
    assert_eq!(p[2], ("limit".to_string(), "10".to_string()));
}

#[test]
fn musicbrainz_urls_and_agent() {
    assert_eq!(discid_url("abc-"), "https://musicbrainz.org/ws/2/discid/abc-");
    assert_eq!(release_url("r1"), "https://musicbrainz.org/ws/2/release/r1");
    assert!(default_user_agent().starts_with("Podforge/"));
}

#[test]
fn response_status_decisions() {
    assert_eq!(check_release_response(200, "200 OK"), Ok(()));
    assert_eq!(
        check_release_response(503, "503 Service Unavailable"),
        Err("MusicBrainz returned status 503 Service Unavailable".to_string())
    );
    assert!(matches!(check_discid_response(404, "404 Not Found"), ResponseCheck::NotFound));
    assert!(matches!(check_discid_response(204, "204 No Content"), ResponseCheck::Proceed));
    assert!(matches!(check_discid_response(500, "500"), ResponseCheck::Failed(m) if m == "MusicBrainz returned status 500"));
}

#[test]
fn rate_limit_spaces_requests_one_second_apart() {
    assert_eq!(rate_limit_wait_nanos(0), 1_000_000_000);
    assert_eq!(rate_limit_wait_nanos(250_000_000), 750_000_000);
    assert_eq!(rate_limit_wait_nanos(1_000_000_000), 0);
    assert_eq!(rate_limit_wait_nanos(5_000_000_000), 0);
}

#[test]
fn cover_art_requests_and_responses() {
    assert_eq!(front_cover_url("xyz"), "https://coverartarchive.org/release/xyz/front");
    assert_eq!(
        check_cover_response(404, "404 Not Found"),
        Err("no cover art available for this release".to_string())
    );
    assert_eq!(
        check_cover_response(502, "502 Bad Gateway"),
        Err("Cover Art Archive returned status 502 Bad Gateway".to_string())
    );
    assert_eq!(check_cover_response(200, "200 OK"), Ok(()));
    assert_eq!(cover_mime(Some("image/png")), "image/png");
    assert_eq!(cover_mime(None), "image/jpeg");
}

#[test]
fn patch_is_applied_to_a_tag() {
    let mut tag = Tag::new(TagType::Id3v2);
    tag.set_artist("Old".into());
    let mut patch = TagPatch::empty();
    patch.title = Some("New Title".into());
    patch.album_artist = Some("AA".into());
    patch.track_number = Some(4);
    patch.disc_number = Some(2);
    patch.year = Some(1999);
    apply_patch_to_tag(&mut tag, &patch);
    assert_eq!(tag.title().as_deref(), Some("New Title"));
    assert_eq!(tag.artist().as_deref(), Some("Old"));
    assert_eq!(tag.get_string(&ItemKey::AlbumArtist), Some("AA"));
    assert_eq!(tag.track(), Some(4));
    assert_eq!(tag.disk(), Some(2));
    assert_eq!(tag.year(), Some(1999));
    assert!(!patch_touches_album(&TagPatch::empty()));
    assert!(patch_touches_album(&patch));
}

#[test]
fn empty_patch_leaves_a_tag_alone() {
    let mut tag = Tag::new(TagType::VorbisComments);
    tag.set_title("T".into());
    apply_patch_to_tag(&mut tag, &TagPatch::empty());
    assert_eq!(tag.title().as_deref(), Some("T"));
    assert_eq!(tag.item_count(), 1);
}

#[test]
fn year_is_written_over_a_recording_date() {
    let mut tag = Tag::new(TagType::Id3v2);
    assert!(tag.insert_text(ItemKey::RecordingDate, "2001-05-06".into()));
    let mut patch = TagPatch::empty();
    patch.year = Some(1999);
    assert!(apply_patch_checked(&mut tag, &patch));
    assert_eq!(tag.get_string(&ItemKey::RecordingDate), Some("1999-05-06"));
}

#[test]
fn year_goes_to_the_year_item_or_the_recording_date_by_tag_type() {
    let mut patch = TagPatch::empty();
    patch.year = Some(2004);
    let mut vorbis = Tag::new(TagType::VorbisComments);
    assert!(apply_patch_checked(&mut vorbis, &patch));
    assert_eq!(vorbis.get_string(&ItemKey::Year), Some("2004"));
    assert_eq!(vorbis.get_string(&ItemKey::RecordingDate), None);
    let mut id3 = Tag::new(TagType::Id3v2);
    assert!(apply_patch_checked(&mut id3, &patch));
    assert_eq!(id3.get_string(&ItemKey::RecordingDate), Some("2004"));
    let mut dated = Tag::new(TagType::VorbisComments);
    assert!(dated.insert_text(ItemKey::RecordingDate, "1987-03-02".into()));
    assert!(apply_patch_checked(&mut dated, &patch));
    assert_eq!(dated.get_string(&ItemKey::RecordingDate), Some("2004-03-02"));
    assert_eq!(dated.get_string(&ItemKey::Year), None);
}

#[test]
fn year_is_refused_over_a_date_split_inside_a_character() {
    let mut tag = Tag::new(TagType::Id3v2);
    assert!(tag.insert_text(ItemKey::RecordingDate, "20\u{20ac}".into()));
    let mut patch = TagPatch::empty();
    patch.year = Some(1999);
    patch.title = Some("Kept out".into());
    assert!(!apply_patch_checked(&mut tag, &patch));
    assert_eq!(tag.get_string(&ItemKey::RecordingDate), Some("20\u{20ac}"));
    assert_eq!(tag.title(), None);
    assert!(!year_fits_date("20\u{20ac}"));
    assert!(year_fits_date("2001"));
    assert!(year_fits_date("ab"));
    assert!(year_fits_date("20\u{e9}5"));
}

#[test]
fn expected_codecs_by_container() {
    assert_eq!(expected_codecs("mp3"), vec!["mp3"]);
    assert_eq!(expected_codecs("m4a"), vec!["alac", "aac"]);
    assert_eq!(expected_codecs("aif").len(), 5);
    assert!(expected_codecs("txt").is_empty());
    assert!(!codec_allowed("mp3", "flac"));
    assert!(codec_allowed("mp4", "aac"));
}

#[test]
fn first_audio_stream_decides_the_codec() {
    let s = |t: Option<&str>, n: Option<&str>| ProbeStream {
        codec_type: t.map(String::from),
        codec_name: n.map(String::from),
    };
    assert_eq!(
        first_audio_codec(&vec![s(Some("video"), Some("mjpeg")), s(Some("audio"), Some("flac"))]),
        Ok("flac".to_string())
    );
    assert_eq!(
        first_audio_codec(&vec![s(Some("audio"), None), s(Some("audio"), Some("mp3"))]),
        Err("no audio stream found".to_string())
    );
    assert_eq!(first_audio_codec(&vec![]), Err("no audio stream found".to_string()));
}

#[test]
fn probe_and_reencode_command_lines() {
    assert_eq!(ffprobe_args("a.mp3"), vec!["-v", "quiet", "-print_format", "json", "-show_streams", "a.mp3"]);
    assert_eq!(
        reencode_args("a.mp3", "mp3"),
        vec!["-y", "-i", "a.mp3", "-c:a", "libmp3lame", "-q:a", "2", "a.mp3.ipodfix.tmp"]
    );
    assert_eq!(reencode_args("b.m4a", "m4a"), vec!["-y", "-i", "b.m4a", "-c:a", "alac", "b.m4a.ipodfix.tmp"]);
    assert_eq!(reencode_args("c.ogg", "ogg"), vec!["-y", "-i", "c.ogg", "-c:a", "copy", "c.ogg.ipodfix.tmp"]);
}

fn fix_album() -> Album {
    let t = |id: i64, title: &str, path: &str| Track {
        id,
        album_id: 9,
        disc_number: None,
        track_number: Some(id),
        title: title.into(),
        artist: None,
        duration_ms: None,
        source_path: path.into(),
        output_path: None,
        status: "pending".into(),
        musicbrainz_recording_id: None,
        codec: None,
        container: None,
    };
    Album {
        id: 9,
        title: "LP".into(),
        album_artist: Some("Band".into()),
        year: None,
        genre: None,
        musicbrainz_release_id: None,
        cover_art_path: None,
        source_type: "folder".into(),
        source_path: None,
        created_at: String::new(),
        tracks: vec![t(1, "Bad", "/m/1.MP3"), t(2, "Broken", "/m/2.flac"), t(3, "Notes", "/m/3.txt")],
    }
}

#[test]
fn ipod_fix_walks_every_track() {
    let album = fix_album();
    let (s, a) = fix_start(&album);
    let FixAction::WriteTags { track: 0, patch } = a else { panic!("expected tag write") };
    assert_eq!(patch.album.as_deref(), Some("LP"));
    assert_eq!(patch.album_artist.as_deref(), Some("Band"));
    assert!(patch.title.is_none());
    // Track 1: tags ok, probe says flac inside .MP3 -> re-encode, reprobe, record.
    let (s, a) = fix_step(&album, s, FixEvent::TagsWritten(Ok(())));
    assert!(matches!(a, FixAction::Probe { track: 0 }));
    assert_eq!(s.extension, "mp3");
    let (s, a) = fix_step(&album, s, FixEvent::Probed(Ok("flac".into())));
    assert!(matches!(a, FixAction::ReEncode { track: 0, ref extension } if extension == "mp3"));
    let (s, a) = fix_step(&album, s, FixEvent::ReEncoded(Ok(())));
    assert!(matches!(a, FixAction::Probe { track: 0 }));
    let (s, a) = fix_step(&album, s, FixEvent::Probed(Ok("mp3".into())));
    assert!(matches!(a, FixAction::RecordCodec { track: 0, ref codec, ref extension } if codec == "mp3" && extension == "mp3"));
    let (s, a) = fix_step(&album, s, FixEvent::CodecRecorded);
    assert!(matches!(a, FixAction::WriteTags { track: 1, .. }));
    // Track 2: tag write fails -> error, skip.
    let (s, a) = fix_step(&album, s, FixEvent::TagsWritten(Err("locked".into())));
    assert!(matches!(a, FixAction::WriteTags { track: 2, .. }));
    // Track 3: unknown container -> nothing to check.
    let (s, a) = fix_step(&album, s, FixEvent::TagsWritten(Ok(())));
    assert!(matches!(a, FixAction::Finish));
    assert_eq!(s.phase, FixPhase::Finished);
    assert_eq!(s.report.album_id, 9);
    assert_eq!(s.report.tags_normalized, 2);
    assert_eq!(s.report.tracks_reencoded, vec!["Bad".to_string()]);
    assert_eq!(s.report.errors, vec!["Broken: locked".to_string()]);
}

#[test]
fn ipod_fix_of_an_empty_album_finishes_at_once() {
    let mut album = fix_album();
    album.tracks.clear();
    let (s, a) = fix_start(&album);
    assert!(matches!(a, FixAction::Finish));
    assert_eq!(s.report.tags_normalized, 0);
}

#[test]
fn ipod_fix_track_can_be_normalized_and_failed() {
    let mut album = fix_album();
    album.tracks.truncate(1);
    let (s, _) = fix_start(&album);
    let (s, _) = fix_step(&album, s, FixEvent::TagsWritten(Ok(())));
    let (s, a) = fix_step(&album, s, FixEvent::Probed(Err("ffprobe exited with error: x".into())));
    assert!(matches!(a, FixAction::Finish));
    assert_eq!(s.report.tags_normalized, 1);
    assert_eq!(s.report.errors, vec!["Bad: ffprobe exited with error: x".to_string()]);
}
