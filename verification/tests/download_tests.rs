use std::collections::HashMap;
use narchive::api::{SongAlbum, SongArtist, SongDetail, SongUrlData};
use narchive::download::{
    display_name, id_file_name_of, is_audio_extension, is_lowercase_audio_extension, path_in, plain_file_name_of,
    temp_file_name_of, missing_song_ids, plan_session, resolve_song_ids, songs_with_details, DownloadFailure, Phase, SessionStart, SongAction,
    SongEvent, SongJob, SongReport,
};
use narchive::metadata::{CoverMime, TagEdit};

fn detail() -> SongDetail {
    SongDetail {
        id: 42,
        name: "Song: One".to_string(),
        ar: Some(vec![SongArtist { name: "A".to_string() }, SongArtist { name: "B/C".to_string() }]),
        al: Some(SongAlbum { name: Some("Album".to_string()), pic_url: Some("http://p/c.png".to_string()) }),
        no: Some(1),
        publish_time: None,
    }
}

fn url(u: &str, t: Option<&str>) -> SongEvent {
    SongEvent::UrlResult(Some(SongUrlData { url: Some(u.to_string()), file_type: t.map(|s| s.to_string()) }))
}

#[test]
fn ids_merged_without_duplicates() {
    let r = resolve_song_ids(&vec![5, 1, 5], &vec![Some(vec![1, 2]), None, Some(vec![3])], &vec![Some(vec![2, 4])]);
    assert_eq!(r, vec![5, 1, 2, 3, 4]);
    assert!(resolve_song_ids(&vec![], &vec![None], &vec![]).is_empty());
}

#[test]
fn missing_ids_in_target_order() {
    let mut downloaded = HashMap::new();
    downloaded.insert(2u64, "/dl/b.mp3".to_string());
    assert_eq!(missing_song_ids(&vec![3, 2, 1], &downloaded), vec![3, 1]);
    downloaded.insert(3, "x".to_string());
    downloaded.insert(1, "y".to_string());
    assert!(missing_song_ids(&vec![3, 2, 1], &downloaded).is_empty());
}

#[test]
fn audio_extensions() {
    for e in ["mp3", "MP3", "Ogg", "flac", "WAV"] {
        assert!(is_audio_extension(e), "{}", e);
    }
    for e in ["m4a", "tmp", "mp3 ", "", "flacc"] {
        assert!(!is_audio_extension(e), "{}", e);
    }
}

#[test]
fn lowercase_extensions() {
    assert!(is_lowercase_audio_extension("flac"));
    assert!(!is_lowercase_audio_extension("FLAC"));
}

#[test]
fn file_names() {
    assert_eq!(temp_file_name_of(42, "flac"), "42.flac.tmp");
    assert_eq!(plain_file_name_of("A - B", "mp3"), "A - B.mp3");
    assert_eq!(id_file_name_of("A - B", 42, "mp3"), "A - B [42].mp3");
    assert_eq!(path_in("/dl", "x.mp3"), "/dl/x.mp3");
    assert_eq!(path_in("/dl/", "x.mp3"), "/dl/x.mp3");
    assert_eq!(path_in("", "x.mp3"), "x.mp3");
    assert_eq!(path_in("/dl", "/abs"), "/abs");
    for (dir, name) in [("/dl", "x.mp3"), ("/dl/", "x"), ("", "x"), ("a/b", "c/d"), ("/dl", "/abs")] {
        assert_eq!(path_in(dir, name), std::path::Path::new(dir).join(name).to_string_lossy());
    }
}

#[test]
fn display_names() {
    assert_eq!(display_name(&detail()), "A, B/C - Song: One");
    let mut d = detail();
    d.ar = Some(vec![]);
    assert_eq!(display_name(&d), "Song: One");
    d.ar = None;
    assert_eq!(display_name(&d), "Song: One");
    d.ar = Some(vec![SongArtist { name: String::new() }, SongArtist { name: String::new() }]);
    assert_eq!(display_name(&d), ",  - Song: One");
}

fn step(job: SongJob, ev: SongEvent) -> (SongJob, SongAction) {
    job.step(ev)
}

#[test]
fn happy_path() {
    let job = SongJob::new(detail(), "/dl".to_string(), false, false);
    let (job, a) = step(job, SongEvent::Start);
    assert!(matches!(a, SongAction::FetchUrl { attempt: 1 }));
    let (job, a) = step(job, url("http://cdn/x", Some("FLAC")));
    match a {
        SongAction::CheckExisting { path } => assert_eq!(path, "/dl/A, B_C - Song_ One.flac"),
        _ => panic!("expected CheckExisting"),
    }
    let (job, a) = step(job, SongEvent::ExistingId(Some(42)));
    match a {
        SongAction::Download { url, temp_path } => {
            assert_eq!(url, "http://cdn/x");
            assert_eq!(temp_path, "/dl/42.flac.tmp");
        }
        _ => panic!("expected Download"),
    }
    let (job, a) = step(job, SongEvent::DownloadResult(Ok(())));
    assert!(matches!(a, SongAction::FetchLyric));
    let (job, a) = step(job, SongEvent::LyricResult(Some("la".to_string())));
    match a {
        SongAction::FetchCover { url } => assert_eq!(url, "http://p/c.png"),
        _ => panic!("expected FetchCover"),
    }
    let (job, a) = step(job, SongEvent::CoverResult(Some((vec![1, 2], Some("image/png".to_string())))));
    match a {
        SongAction::WriteTags { path, plan } => {
            assert_eq!(path, "/dl/42.flac.tmp");
            assert!(plan.edits.iter().any(|e| matches!(e, TagEdit::SetLyrics(l) if l == "la")));
            assert!(plan.edits.iter().any(|e| matches!(e, TagEdit::ReplaceCover(c) if c.mime == CoverMime::Png)));
        }
        _ => panic!("expected WriteTags"),
    }
    let (job, a) = step(job, SongEvent::TagsWritten);
    match a {
        SongAction::Rename { from, to } => {
            assert_eq!(from, "/dl/42.flac.tmp");
            assert_eq!(to, "/dl/A, B_C - Song_ One.flac");
        }
        _ => panic!("expected Rename"),
    }
    let (job, a) = step(job, SongEvent::RenameResult(Ok(())));
    match a {
        SongAction::Finish(SongReport::Saved { file_name }) => assert_eq!(file_name, "A, B_C - Song_ One.flac"),
        _ => panic!("expected Saved"),
    }
    assert_eq!(job.phase, Phase::Finished);
    let (job, a) = step(job, SongEvent::WaitOver);
    assert!(matches!(a, SongAction::Nothing));
    assert_eq!(job.phase, Phase::Finished);
}

#[test]
fn name_clash_adds_song_id() {
    let job = SongJob::new(detail(), "/dl/".to_string(), true, true);
    let (job, _) = step(job, SongEvent::Start);
    let (job, _) = step(job, url("http://cdn/x", None));
    let (job, _) = step(job, SongEvent::ExistingId(Some(7)));
    assert_eq!(job.files.final_name, "A, B_C - Song_ One [42].mp3");
    assert_eq!(job.files.final_path, "/dl/A, B_C - Song_ One [42].mp3");
    let (job, a) = step(job, SongEvent::DownloadResult(Ok(())));
    match a {
        SongAction::WriteTags { plan, .. } => {
            let kinds: Vec<bool> = plan.edits.iter().map(|e| matches!(e, TagEdit::SetNeteaseId(_) | TagEdit::SetComment(_))).collect();
            assert_eq!(kinds, vec![true, true]);
        }
        _ => panic!("expected WriteTags without lyric or cover"),
    }
    assert_eq!(job.phase, Phase::Embedding);
}

#[test]
fn restricted_song_is_not_retried() {
    let job = SongJob::new(detail(), "/dl".to_string(), false, false);
    let (job, _) = step(job, SongEvent::Start);
    let (job, a) = step(job, SongEvent::UrlResult(Some(SongUrlData { url: Some(String::new()), file_type: None })));
    match a {
        SongAction::Finish(SongReport::Restricted { display_name }) => assert_eq!(display_name, "A, B/C - Song: One"),
        _ => panic!("expected Restricted"),
    }
    assert_eq!(job.phase, Phase::Finished);
    assert_eq!(job.error_details, "Restricted/unavailable");
    let job = SongJob::new(detail(), "/dl".to_string(), false, false);
    let (job, _) = step(job, SongEvent::Start);
    let (_, a) = step(job, SongEvent::UrlResult(Some(SongUrlData { url: None, file_type: None })));
    assert!(matches!(a, SongAction::Finish(SongReport::Restricted { .. })));
}

#[test]
fn four_attempts_then_failure() {
    let job = SongJob::new(detail(), "/dl".to_string(), false, false);
    let (mut job, _) = step(job, SongEvent::Start);
    let mut fetches = 1;
    let mut reports = 0;
    for attempt in 1..=4u32 {
        let (j, a) = step(job, SongEvent::UrlResult(None));
        job = j;
        if attempt < 4 {
            match a {
                SongAction::Wait { millis, next_attempt } => {
                    assert_eq!(millis, [1000, 2000, 4000][attempt as usize - 1]);
                    assert_eq!(next_attempt, attempt + 1);
                }
                _ => panic!("expected Wait"),
            }
            let (j, a) = step(job, SongEvent::WaitOver);
            job = j;
            assert!(matches!(a, SongAction::FetchUrl { attempt: n } if n == attempt + 1));
            fetches += 1;
        } else {
            match a {
                SongAction::Finish(SongReport::Failed { display_name, details }) => {
                    assert_eq!(display_name, "A, B/C - Song: One");
                    assert_eq!(details, "Failed to fetch download URL");
                    reports += 1;
                }
                _ => panic!("expected Failed"),
            }
        }
    }
    assert_eq!(fetches, 4);
    assert_eq!(reports, 1);
    assert_eq!(job.attempt, 4);
    assert_eq!(job.phase, Phase::Finished);
    let (job, a) = step(job, SongEvent::UrlResult(None));
    assert!(matches!(a, SongAction::Nothing));
    assert_eq!(job.phase, Phase::Finished);
}

#[test]
fn broken_stream_is_discarded_and_retried() {
    let job = SongJob::new(detail(), "/dl".to_string(), true, true);
    let (job, _) = step(job, SongEvent::Start);
    let (job, _) = step(job, url("http://cdn/x", Some("mp3")));
    let (job, _) = step(job, SongEvent::ExistingId(None));
    let (job, a) = step(job, SongEvent::DownloadResult(Err(DownloadFailure::Stream("connection reset".to_string()))));
    match a {
        SongAction::RemoveTemp { path } => assert_eq!(path, "/dl/42.mp3.tmp"),
        _ => panic!("expected RemoveTemp"),
    }
    assert_eq!(job.phase, Phase::Discarding);
    assert_eq!(job.error_details, "Download interrupted: connection reset");
    let (job, a) = step(job, SongEvent::TempRemoved);
    assert!(matches!(a, SongAction::Wait { millis: 1000, next_attempt: 2 }));
    let (job, _) = step(job, SongEvent::WaitOver);
    let (job, _) = step(job, url("http://cdn/x", Some("mp3")));
    let (job, _) = step(job, SongEvent::ExistingId(None));
    let (job, a) = step(job, SongEvent::DownloadResult(Ok(())));
    assert!(matches!(a, SongAction::WriteTags { .. }));
    let (job, _) = step(job, SongEvent::TagsWritten);
    let (job, a) = step(job, SongEvent::RenameResult(Ok(())));
    match a {
        SongAction::Finish(SongReport::Saved { file_name }) => assert_eq!(file_name, "A, B_C - Song_ One.mp3"),
        _ => panic!("expected Saved"),
    }
    assert_eq!(job.phase, Phase::Finished);
}

#[test]
fn failure_reasons() {
    let job = SongJob::new(detail(), "/dl".to_string(), false, false);
    let (job, _) = step(job, SongEvent::Start);
    let (job, _) = step(job, url("http://cdn/x", Some("mp3")));
    let (job, _) = step(job, SongEvent::ExistingId(None));
    let (job, a) = step(job, SongEvent::DownloadResult(Err(DownloadFailure::Write("disk full".to_string()))));
    match a {
        SongAction::RemoveTemp { path } => assert_eq!(path, "/dl/42.mp3.tmp"),
        _ => panic!("expected RemoveTemp"),
    }
    assert_eq!(job.error_details, "Write error: disk full");
    let (job, a) = step(job, SongEvent::TempRemoved);
    assert!(matches!(a, SongAction::Wait { next_attempt: 2, .. }));
    let (job, _) = step(job, SongEvent::WaitOver);
    let (job, _) = step(job, url("http://cdn/x", Some("mp3")));
    let (job, _) = step(job, SongEvent::ExistingId(None));
    let (job, _) = step(job, SongEvent::DownloadResult(Err(DownloadFailure::CreateTemp("denied".to_string()))));
    assert_eq!(job.error_details, "Failed to create temp file: denied");
    let (job, _) = step(job, SongEvent::WaitOver);
    let (job, _) = step(job, url("http://cdn/x", Some("mp3")));
    let (job, _) = step(job, SongEvent::ExistingId(None));
    let (job, _) = step(job, SongEvent::DownloadResult(Ok(())));
    let (job, _) = step(job, SongEvent::LyricResult(None));
    let (job, _) = step(job, SongEvent::CoverResult(None));
    let (job, _) = step(job, SongEvent::TagsWritten);
    let (job, a) = step(job, SongEvent::RenameResult(Err("busy".to_string())));
    assert!(matches!(a, SongAction::RemoveTemp { .. }));
    assert_eq!(job.error_details, "Failed to save final file: busy");
    let (job, a) = step(job, SongEvent::TempRemoved);
    assert!(matches!(a, SongAction::Wait { millis: 4000, next_attempt: 4 }));
    let (job, _) = step(job, SongEvent::WaitOver);
    let (job, _) = step(job, url("http://cdn/x", Some("mp3")));
    let (job, _) = step(job, SongEvent::ExistingId(None));
    let (job, a) = step(job, SongEvent::DownloadResult(Err(DownloadFailure::Stream("eof".to_string()))));
    assert!(matches!(a, SongAction::RemoveTemp { .. }));
    let (_, a) = step(job, SongEvent::TempRemoved);
    match a {
        SongAction::Finish(SongReport::Failed { details, .. }) => assert_eq!(details, "Download interrupted: eof"),
        _ => panic!("expected Failed"),
    }
}

#[test]
fn connect_failure_text_and_unexpected_events() {
    let job = SongJob::new(detail(), "/dl".to_string(), false, false);
    let (job, a) = step(job, SongEvent::TagsWritten);
    assert!(matches!(a, SongAction::Nothing));
    assert_eq!(job.phase, Phase::Ready);
    let (job, _) = step(job, SongEvent::Start);
    let (job, _) = step(job, url("http://cdn/x", None));
    let (job, _) = step(job, SongEvent::ExistingId(None));
    let (job, a) = step(job, SongEvent::DownloadResult(Err(DownloadFailure::Connect)));
    assert!(matches!(a, SongAction::Wait { .. }));
    assert_eq!(job.error_details, "Failed to connect to download URL");
}

#[test]
fn fresh_job_has_no_files() {
    let job = SongJob::new(detail(), "/dl".to_string(), false, false);
    assert_eq!(job.phase, Phase::Ready);
    assert_eq!(job.attempt, 0);
    for t in [&job.files.url, &job.files.ext, &job.files.base_name, &job.files.temp_path, &job.files.final_name, &job.files.final_path] {
        assert!(t.is_empty());
    }
}

#[test]
fn session_plans() {
    let mut downloaded = HashMap::new();
    assert!(matches!(plan_session(&vec![], &downloaded), SessionStart::NoTargets));
    downloaded.insert(2u64, "/dl/b.mp3".to_string());
    match plan_session(&vec![3, 2, 1], &downloaded) {
        SessionStart::Download { missing } => assert_eq!(missing, vec![3, 1]),
        _ => panic!("expected Download"),
    }
    assert!(matches!(plan_session(&vec![2], &downloaded), SessionStart::AllDownloaded));
}

#[test]
fn songs_without_details_are_skipped() {
    let mut details = HashMap::new();
    details.insert(1u64, detail());
    details.insert(3u64, detail());
    assert_eq!(songs_with_details(&vec![3, 2, 1], &details), vec![3, 1]);
    assert!(songs_with_details(&vec![5], &details).is_empty());
}

#[test]
fn answered_run_ends_finished() {
    let mut job = SongJob::new(detail(), "/dl".to_string(), false, false);
    let mut event = SongEvent::Start;
    let mut steps = 0;
    loop {
        let (next, action) = step(job, event);
        job = next;
        steps += 1;
        event = match action {
            SongAction::FetchUrl { .. } => url("http://cdn/x", Some("mp3")),
            SongAction::CheckExisting { .. } => SongEvent::ExistingId(None),
            SongAction::Download { .. } => SongEvent::DownloadResult(Err(DownloadFailure::Stream("reset".to_string()))),
            SongAction::RemoveTemp { .. } => SongEvent::TempRemoved,
            SongAction::Wait { .. } => SongEvent::WaitOver,
            SongAction::Finish(_) => break,
            _ => panic!("unexpected action"),
        };
    }
    assert_eq!(job.phase, Phase::Finished);
    assert!(steps <= 50);
}
