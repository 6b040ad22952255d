use podforge::bin_path::{candidate_paths, first_existing, resolve};
use podforge::commands::{
    cd_album_header, cd_rip_dir, cover_dir, cover_file_name, mime_from_extension, plan_cd_tracks,
};
use podforge::disc_id::disc_info;
use podforge::jobs::{is_terminal_status, job_may_start, job_outcome, outcome_status, rip_outcome, rip_tag_patch, JobOutcome};
use podforge::models::Track;
use podforge::musicbrainz::{MbReleaseTrack, ReleaseDetail};
use podforge::numbers::{fmt_i64, fmt_i64_pad2, parse_i64_str};
use podforge::settings::{
    default_concurrency, require_mb_user_agent, setting_keys, settings_from_stored,
    settings_to_stored, worker_count, Settings,
};

fn s(v: Vec<char>) -> String {
    v.into_iter().collect()
}

#[test]
fn integers_format_and_parse_back() {
    for n in [0i64, 7, -7, 10, 12345, i64::MAX, i64::MIN] {
        assert_eq!(s(fmt_i64(n)), n.to_string());
        assert_eq!(parse_i64_str(&n.to_string()), Some(n));
    }
    assert_eq!(s(fmt_i64_pad2(3)), "03");
    assert_eq!(s(fmt_i64_pad2(-3)), "-3");
    assert_eq!(s(fmt_i64_pad2(42)), "42");
    assert_eq!(parse_i64_str("9223372036854775808"), None);
    assert_eq!(parse_i64_str("-9223372036854775809"), None);
    assert_eq!(parse_i64_str("-"), None);
    assert_eq!(parse_i64_str("+"), None);
    assert_eq!(parse_i64_str(""), None);
    assert_eq!(parse_i64_str("007"), Some(7));
    assert_eq!(parse_i64_str("1 "), None);
}

#[test]
fn tool_candidates_and_fallback() {
    let c = candidate_paths("ffmpeg");
    assert_eq!(c, vec!["/opt/homebrew/bin/ffmpeg", "/usr/local/bin/ffmpeg", "/usr/bin/ffmpeg", "/bin/ffmpeg"]);
    assert_eq!(resolve("surely-no-such-tool-podforge"), "surely-no-such-tool-podforge");
}

#[test]
fn cover_files_and_mime_types() {
    assert_eq!(mime_from_extension("/p/Cover.PNG"), "image/png");
    assert_eq!(mime_from_extension("/p/cover.jpeg"), "image/jpeg");
    assert_eq!(mime_from_extension("/p/cover"), "image/jpeg");
    assert_eq!(cover_file_name(12, "image/png"), "12.png");
    assert_eq!(cover_file_name(12, "image/jpeg"), "12.jpg");
    assert_eq!(cover_dir("/data"), "/data/covers");
    assert_eq!(cd_rip_dir("/data/", 5), "/data/cd_rips/5");
}

#[test]
fn cd_import_plan_uses_release_titles_when_chosen() {
    let disc = disc_info("d".into(), &vec![(1, 750), (2, 1500)]);
    let detail = ReleaseDetail {
        title: "Rel".into(),
        artist: "Art".into(),
        tracks: vec![MbReleaseTrack { number: 2, title: "Second".into(), artist: Some("Guest".into()) }],
    };
    let plan = plan_cd_tracks(&disc, &Some(detail.clone()), "/rips/3");
    assert_eq!(plan.len(), 2);
    assert_eq!(plan[0].title, "Track 1");
    assert_eq!(plan[0].artist, None);
    assert_eq!(plan[0].source_path, "/rips/3/01.wav");
    assert_eq!(plan[0].duration_ms, 10_000);
    assert_eq!(plan[1].title, "Second");
    assert_eq!(plan[1].artist.as_deref(), Some("Guest"));
    assert_eq!(plan[1].track_number, 2);
    let (title, artist) = cd_album_header(&Some(detail));
    assert_eq!((title.as_str(), artist.as_deref()), ("Rel", Some("Art")));
    let (title, artist) = cd_album_header(&None);
    assert_eq!((title.as_str(), artist), ("Unknown Album (CD import)", None));
}

#[test]
fn job_outcomes_and_statuses() {
    assert!(matches!(job_outcome(Ok(())), JobOutcome::Done));
    assert!(matches!(job_outcome(Err("cancelled".into())), JobOutcome::Cancelled));
    let failed = job_outcome(Err("boom".into()));
    assert!(matches!(&failed, JobOutcome::Failed(m) if m == "boom"));
    assert_eq!(outcome_status(&failed), "error");
    assert_eq!(outcome_status(&JobOutcome::Done), "done");
    assert!(is_terminal_status("cancelled"));
    assert!(!is_terminal_status("running"));
    assert!(!is_terminal_status("queued"));
}

#[test]
fn rip_patch_carries_track_and_album_tags() {
    let t = Track {
        id: 1,
        album_id: 2,
        disc_number: None,
        track_number: Some(5),
        title: "Five".into(),
        artist: Some("A".into()),
        duration_ms: None,
        source_path: "/r/05.wav".into(),
        output_path: None,
        status: "pending".into(),
        musicbrainz_recording_id: None,
        codec: None,
        container: None,
    };
    let p = rip_tag_patch(&t, &"Alb".to_string(), &None);
    assert_eq!(p.title.as_deref(), Some("Five"));
    assert_eq!(p.album.as_deref(), Some("Alb"));
    assert_eq!(p.track_number, Some(5));
    assert_eq!(p.year, None);
}

#[test]
fn settings_defaults_and_round_trip() {
    assert_eq!(setting_keys(), vec!["output_dir", "default_format", "default_quality", "mb_user_agent", "concurrency"]);
    let fresh = settings_from_stored(&vec![None, None, Some(String::new()), None, None], 3);
    assert_eq!(fresh.output_dir, "");
    assert_eq!(fresh.default_format, "mp3");
    assert_eq!(fresh.default_quality, "0");
    assert!(fresh.mb_user_agent.starts_with("Podforge/"));
    assert_eq!(fresh.concurrency, 3);
    let bad = settings_from_stored(&vec![None, None, None, None, Some("lots".into())], 2);
    assert_eq!(bad.concurrency, 2);
    let mine = Settings {
        output_dir: "/o".into(),
        default_format: "alac".into(),
        default_quality: "5".into(),
        mb_user_agent: "Me/1 (me@x)".into(),
        concurrency: 0,
    };
    let stored = settings_to_stored(&mine);
    assert_eq!(stored[4], ("concurrency".to_string(), "1".to_string()));
    let values: Vec<Option<String>> = stored.into_iter().map(|(_, v)| Some(v)).collect();
    let back = settings_from_stored(&values, 8);
    assert_eq!(back.default_format, "alac");
    assert_eq!(back.mb_user_agent, "Me/1 (me@x)");
    assert_eq!(back.concurrency, 1);
}

#[test]
fn user_agent_is_required_for_musicbrainz() {
    let mut st = settings_from_stored(&vec![None, None, None, None, None], 1);
    assert!(require_mb_user_agent(&st).is_ok());
    st.mb_user_agent = "  \t".into();
    assert_eq!(
        require_mb_user_agent(&st),
        Err("Set a MusicBrainz User-Agent in Settings before searching MusicBrainz.".to_string())
    );
}

#[test]
fn cleared_user_agent_is_kept_and_refused() {
    let never_set = settings_from_stored(&vec![None, None, None, None, None], 1);
    assert_eq!(
        require_mb_user_agent(&never_set),
        Ok("Podforge/0.1.0 ( https://github.com/pranav-r13/podforge )".to_string())
    );
    let cleared = settings_from_stored(&vec![None, None, None, Some(String::new()), None], 1);
    assert_eq!(cleared.mb_user_agent, "");
    assert_eq!(
        require_mb_user_agent(&cleared),
        Err("Set a MusicBrainz User-Agent in Settings before searching MusicBrainz.".to_string())
    );
}

#[test]
fn worker_pool_sizes() {
    assert_eq!(default_concurrency(Some(8)), 4);
    assert_eq!(default_concurrency(Some(1)), 1);
    assert_eq!(default_concurrency(None), 2);
    assert_eq!(worker_count(0), 1);
    assert_eq!(worker_count(-4), 1);
    assert_eq!(worker_count(6), 6);
}

#[test]
fn first_existing_tool_path_wins() {
    let c = candidate_paths("ffmpeg");
    assert_eq!(first_existing(&c, &vec![false, false, true, true], "ffmpeg"), "/usr/bin/ffmpeg");
    assert_eq!(first_existing(&c, &vec![true, false, true, false], "ffmpeg"), "/opt/homebrew/bin/ffmpeg");
    assert_eq!(first_existing(&c, &vec![false, false, false, false], "ffmpeg"), "ffmpeg");
}

#[test]
fn rip_is_done_only_once_its_tags_are_written() {
    assert!(matches!(rip_outcome(JobOutcome::Done, Ok(())), JobOutcome::Done));
    match rip_outcome(JobOutcome::Done, Err("no tags".into())) {
        JobOutcome::Failed(m) => assert_eq!(m, "no tags"),
        other => panic!("unexpected {other:?}"),
    }
    assert!(matches!(rip_outcome(JobOutcome::Cancelled, Ok(())), JobOutcome::Cancelled));
    match rip_outcome(JobOutcome::Failed("rip".into()), Ok(())) {
        JobOutcome::Failed(m) => assert_eq!(m, "rip"),
        other => panic!("unexpected {other:?}"),
    }
}

#[test]
fn only_a_queued_job_may_start() {
    assert!(job_may_start("queued"));
    assert!(!job_may_start("cancelled"));
    assert!(!job_may_start("running"));
    assert!(!job_may_start("done"));
}
