use std::collections::HashMap;
use narchive::api::{
    album_request, album_song_ids, build_url, endpoint_url_text, extend_query, first_song_url, lyric_request,
    lyric_text, playlist_request, playlist_song_ids, query_pairs, record_song_details, song_detail_requests,
    song_url_request, AlbumResponse, AlbumResponseSong, LyricInfo, LyricResponse, PlaylistTrackResponse,
    SongDetail, SongDetailResponse, SongUrlData, SongUrlResponse, ApiRequest, UrlError,
};
use narchive::config::DownloadConfig;

fn config(query: Option<&str>) -> DownloadConfig {
    DownloadConfig {
        time: 0,
        path: "/dl".to_string(),
        user_agent: None,
        query_params: query.map(|q| q.to_string()),
        br: None,
        tracks: vec![],
        albums: vec![],
        playlists: vec![],
        no_metadata: false,
        no_cover: false,
    }
}

fn detail(id: u64, name: &str) -> SongDetail {
    SongDetail { id, name: name.to_string(), ar: None, al: None, no: None, publish_time: None }
}

fn params(r: &ApiRequest) -> Vec<(String, String)> {
    r.params.clone()
}

#[test]
fn endpoint_joins_with_one_slash() {
    assert_eq!(endpoint_url_text("http://h:3000///", "//song/url"), "http://h:3000/song/url");
    assert_eq!(endpoint_url_text("http://h", "lyric"), "http://h/lyric");
}

#[test]
fn query_pairs_end_with_region_bypass() {
    let pairs = query_pairs(&[("id", "5")], Some("MUSIC_U=abc"));
    assert_eq!(
        pairs,
        vec![
            ("id".to_string(), "5".to_string()),
            ("cookie".to_string(), "MUSIC_U=abc".to_string()),
            ("randomCNIP".to_string(), "true".to_string()),
        ]
    );
    assert_eq!(query_pairs(&[], None), vec![("randomCNIP".to_string(), "true".to_string())]);
}

#[test]
fn custom_query_is_appended() {
    assert_eq!(extend_query(Some("a=1".to_string()), "b=2"), "a=1&b=2");
    assert_eq!(extend_query(Some(String::new()), "b=2"), "b=2");
    assert_eq!(extend_query(None, "b=2"), "b=2");
}

#[test]
fn build_url_full() {
    let url = build_url("http://localhost:3000/", "/song/url", &[("id", "5"), ("br", "320000")], Some("a b&c"), &config(Some("realIP=1.2.3.4")))
        .unwrap();
    assert_eq!(
        url.as_str(),
        "http://localhost:3000/song/url?id=5&br=320000&cookie=a+b%26c&randomCNIP=true&realIP=1.2.3.4"
    );
}

#[test]
fn build_url_without_extras() {
    let url = build_url("http://localhost:3000", "lyric", &[("id", "7")], None, &config(None)).unwrap();
    assert_eq!(url.as_str(), "http://localhost:3000/lyric?id=7&randomCNIP=true");
}

#[test]
fn build_url_joins_base_and_path() {
    let url = build_url("http://localhost:3000/", "/song/url", &[("id", "123")], None, &config(None)).unwrap();
    assert_eq!(url.as_str(), "http://localhost:3000/song/url?id=123&randomCNIP=true");
    let other = build_url("http://localhost:3000", "song/url", &[("id", "123")], None, &config(None)).unwrap();
    assert_eq!(url, other);
}

#[test]
fn build_url_encodes_cookie() {
    let url = build_url("http://localhost:3000", "lyric", &[("id", "1")], Some("a=b c"), &config(None)).unwrap();
    assert_eq!(url.as_str(), "http://localhost:3000/lyric?id=1&cookie=a%3Db+c&randomCNIP=true");
}

#[test]
fn build_url_appends_custom_query_raw() {
    let url = build_url("http://localhost:3000", "album", &[("id", "5")], None, &config(Some("key=val&another=123"))).unwrap();
    assert_eq!(url.as_str(), "http://localhost:3000/album?id=5&randomCNIP=true&key=val&another=123");
    let pairs: Vec<(String, String)> = url.query_pairs().map(|(k, v)| (k.into_owned(), v.into_owned())).collect();
    assert_eq!(pairs.len(), 4);
}

#[test]
fn build_url_pairs_in_order() {
    let url = build_url("http://h", "p", &[("b", "x y"), ("a", "&=")], Some("c"), &config(None)).unwrap();
    let pairs: Vec<(String, String)> = url.query_pairs().map(|(k, v)| (k.into_owned(), v.into_owned())).collect();
    let expected: Vec<(String, String)> = [("b", "x y"), ("a", "&="), ("cookie", "c"), ("randomCNIP", "true")]
        .iter()
        .map(|(k, v)| (k.to_string(), v.to_string()))
        .collect();
    assert_eq!(pairs, expected);
}

#[test]
fn build_url_rejects_bad_base() {
    assert_eq!(build_url("not a url", "lyric", &[], None, &config(None)).unwrap_err(), UrlError::RelativeUrlWithoutBase);
    assert_eq!(build_url("http://:80", "lyric", &[], None, &config(None)).unwrap_err(), UrlError::EmptyHost);
    assert_eq!(build_url("http://h:99999", "lyric", &[], None, &config(None)).unwrap_err(), UrlError::InvalidPort);
}

#[test]
fn detail_requests_in_batches_of_100() {
    let ids: Vec<u64> = (1..=250).collect();
    let reqs = song_detail_requests(&ids);
    assert_eq!(reqs.len(), 3);
    assert!(reqs.iter().all(|r| r.path == "song/detail"));
    let first = params(&reqs[0]);
    assert_eq!(first[0].0, "ids");
    assert_eq!(first[0].1, (1..=100).map(|i| i.to_string()).collect::<Vec<_>>().join(","));
    assert_eq!(params(&reqs[2])[0].1, (201..=250).map(|i| i.to_string()).collect::<Vec<_>>().join(","));
    let rejoined: Vec<String> = reqs.iter().map(|r| params(r)[0].1.clone()).collect();
    assert_eq!(rejoined.join(","), ids.iter().map(|i| i.to_string()).collect::<Vec<_>>().join(","));
    assert!(song_detail_requests(&vec![]).is_empty());
    assert_eq!(song_detail_requests(&(1..=100).collect()).len(), 1);
}

#[test]
fn single_requests() {
    let a = album_request(12);
    assert_eq!((a.path.as_str(), params(&a)), ("album", vec![("id".to_string(), "12".to_string())]));
    let p = playlist_request(34);
    assert_eq!(p.path, "playlist/track/all");
    assert_eq!(params(&p), vec![("id".to_string(), "34".to_string())]);
    let l = lyric_request(56);
    assert_eq!(l.path, "lyric");
    let u = song_url_request(78, Some(320000));
    assert_eq!(u.path, "song/url");
    assert_eq!(params(&u), vec![("id".to_string(), "78".to_string()), ("br".to_string(), "320000".to_string())]);
    assert_eq!(params(&song_url_request(78, None)), vec![("id".to_string(), "78".to_string())]);
}

#[test]
fn listed_song_ids_in_order() {
    let body = AlbumResponse { songs: Some(vec![AlbumResponseSong { id: 3 }, AlbumResponseSong { id: 1 }, AlbumResponseSong { id: 3 }]) };
    assert_eq!(album_song_ids(&body), vec![3, 1, 3]);
    assert!(album_song_ids(&AlbumResponse { songs: None }).is_empty());
    let body = PlaylistTrackResponse { songs: Some(vec![AlbumResponseSong { id: 9 }]) };
    assert_eq!(playlist_song_ids(&body), vec![9]);
}

#[test]
fn first_url_entry() {
    let body = SongUrlResponse {
        data: Some(vec![
            SongUrlData { url: Some("http://a".to_string()), file_type: Some("flac".to_string()) },
            SongUrlData { url: Some("http://b".to_string()), file_type: None },
        ]),
    };
    let first = first_song_url(body).unwrap();
    assert_eq!(first.url.as_deref(), Some("http://a"));
    assert!(first_song_url(SongUrlResponse { data: Some(vec![]) }).is_none());
    assert!(first_song_url(SongUrlResponse { data: None }).is_none());
}

#[test]
fn lyric_of_reply() {
    let body = LyricResponse { lrc: Some(LyricInfo { lyric: Some("[00:00] la".to_string()) }) };
    assert_eq!(lyric_text(body), Some("[00:00] la".to_string()));
    assert_eq!(lyric_text(LyricResponse { lrc: Some(LyricInfo { lyric: None }) }), None);
    assert_eq!(lyric_text(LyricResponse { lrc: None }), None);
}

#[test]
fn later_details_replace_earlier_ones() {
    let mut details: HashMap<u64, SongDetail> = HashMap::new();
    record_song_details(&mut details, SongDetailResponse { songs: Some(vec![detail(1, "a"), detail(2, "b"), detail(1, "c")]) });
    record_song_details(&mut details, SongDetailResponse { songs: None });
    assert_eq!(details.len(), 2);
    assert_eq!(details[&1].name, "c");
    record_song_details(&mut details, SongDetailResponse { songs: Some(vec![detail(2, "d")]) });
    assert_eq!(details[&2].name, "d");
}
