use narchive::api::{SongAlbum, SongArtist, SongDetail};
use narchive::metadata::{
    cover_mime, date_string, release_date, song_id_from_tags, tag_plan, tag_plan_with_date, CoverArt, CoverMime,
    TagEdit,
};

fn detail() -> SongDetail {
    SongDetail {
        id: 186016,
        name: "晴天".to_string(),
        ar: Some(vec![SongArtist { name: "周杰伦".to_string() }, SongArtist { name: "B".to_string() }]),
        al: Some(SongAlbum { name: Some("叶惠美".to_string()), pic_url: Some("http://p/1.jpg".to_string()) }),
        no: Some(3),
        publish_time: Some(1059580800000),
    }
}

fn describe(e: &TagEdit) -> String {
    match e {
        TagEdit::SetTitle(s) => format!("title={}", s),
        TagEdit::ReplaceArtists(v) => format!("artists={}", v.join("|")),
        TagEdit::SetAlbum(s) => format!("album={}", s),
        TagEdit::SetTrack(n) => format!("track={}", n),
        TagEdit::SetYear(n) => format!("year={}", n),
        TagEdit::SetReleaseDate(s) => format!("date={}", s),
        TagEdit::SetLyrics(s) => format!("lyrics={}", s),
        TagEdit::SetNeteaseId(s) => format!("id={}", s),
        TagEdit::SetComment(s) => format!("comment={}", s),
        TagEdit::ReplaceCover(c) => format!("cover={}:{:?}", c.bytes.len(), c.mime),
    }
}

#[test]
fn dates_render_like_chrono() {
    assert_eq!(date_string(2024, 3, 5), "2024-03-05");
    assert_eq!(date_string(999, 12, 31), "0999-12-31");
    assert_eq!(date_string(12345, 1, 1), "+12345-01-01");
    assert_eq!(date_string(-5, 1, 1), "-0005-01-01");
    for (y, m, d) in [(2024, 3, 5), (999, 12, 31), (12345, 1, 1), (-5, 1, 1), (0, 2, 29)] {
        let expected = chrono::NaiveDate::from_ymd_opt(y, m, d).unwrap().format("%Y-%m-%d").to_string();
        assert_eq!(date_string(y, m, d), expected);
    }
}

#[test]
fn release_dates_in_utc() {
    assert_eq!(release_date(None), None);
    assert_eq!(release_date(Some(0)), Some((1970, 1, 1)));
    assert_eq!(release_date(Some(-1)), Some((1969, 12, 31)));
    assert_eq!(release_date(Some(1059580800000)), Some((2003, 7, 30)));
    assert_eq!(release_date(Some(1059609600000)), Some((2003, 7, 31)));
    assert_eq!(release_date(Some(1059609599999)), Some((2003, 7, 30)));
    assert_eq!(release_date(Some(i64::MAX)), None);
    assert_eq!(release_date(Some(i64::MIN)), None);
}

#[test]
fn release_dates_at_the_edges_of_chrono() {
    let first_day: i64 = -96465292;
    let last_day: i64 = 95026236;
    assert_eq!(release_date(Some(first_day * 86_400_000)), Some((-262143, 1, 1)));
    assert_eq!(release_date(Some(first_day * 86_400_000 - 1)), None);
    assert_eq!(release_date(Some((last_day + 1) * 86_400_000 - 1)), Some((262142, 12, 31)));
    assert_eq!(release_date(Some((last_day + 1) * 86_400_000)), None);
}

#[test]
fn full_plan() {
    let cover = CoverArt { bytes: vec![1, 2, 3], mime: CoverMime::Png };
    let plan = tag_plan(&detail(), Some("[00:01]x".to_string()), Some(cover), false);
    let edits: Vec<String> = plan.edits.iter().map(describe).collect();
    assert_eq!(
        edits,
        vec![
            "title=晴天",
            "artists=周杰伦|B",
            "album=叶惠美",
            "track=3",
            "year=2003",
            "date=2003-07-30",
            "lyrics=[00:01]x",
            "id=186016",
            "comment=NETEASE_ID:186016",
            "cover=3:Png",
        ]
    );
}

#[test]
fn plan_without_metadata_keeps_id_and_cover() {
    let cover = CoverArt { bytes: vec![9], mime: CoverMime::Jpeg };
    let plan = tag_plan(&detail(), Some("ignored".to_string()), Some(cover), true);
    let edits: Vec<String> = plan.edits.iter().map(describe).collect();
    assert_eq!(edits, vec!["id=186016", "comment=NETEASE_ID:186016", "cover=1:Jpeg"]);
}

#[test]
fn plan_of_bare_song() {
    let bare = SongDetail { id: 1, name: "x".to_string(), ar: None, al: None, no: None, publish_time: None };
    let plan = tag_plan(&bare, None, None, false);
    let edits: Vec<String> = plan.edits.iter().map(describe).collect();
    assert_eq!(edits, vec!["title=x", "id=1", "comment=NETEASE_ID:1"]);
    let plan = tag_plan_with_date(&bare, None, None, false, Some((-5, 1, 1)));
    let edits: Vec<String> = plan.edits.iter().map(describe).collect();
    assert_eq!(edits[1], format!("year={}", (-5i32) as u32));
    assert_eq!(edits[2], "date=-0005-01-01");
}

#[test]
fn song_id_read_from_comment_first() {
    let comments = vec!["hello".to_string(), "NETEASE_ID:x".to_string(), "NETEASE_ID:42".to_string(), "NETEASE_ID:7".to_string()];
    assert_eq!(song_id_from_tags(&comments, Some("99")), Some(42));
}

#[test]
fn song_id_falls_back_to_custom_item() {
    assert_eq!(song_id_from_tags(&vec!["NETEASE_ID:".to_string()], Some("99")), Some(99));
    assert_eq!(song_id_from_tags(&vec![], Some("abc")), None);
    assert_eq!(song_id_from_tags(&vec![], None), None);
    assert_eq!(song_id_from_tags(&vec!["netease_id:5".to_string()], None), None);
}

#[test]
fn written_id_is_read_back() {
    for id in [0u64, 186016, u64::MAX] {
        let d = SongDetail { id, name: "n".to_string(), ar: None, al: None, no: None, publish_time: None };
        let plan = tag_plan(&d, None, None, true);
        let mut comments = Vec::new();
        let mut custom = None;
        for e in &plan.edits {
            match e {
                TagEdit::SetComment(c) => comments.push(c.clone()),
                TagEdit::SetNeteaseId(s) => custom = Some(s.clone()),
                _ => {}
            }
        }
        assert_eq!(song_id_from_tags(&comments, custom.as_deref()), Some(id));
        assert_eq!(song_id_from_tags(&vec![], custom.as_deref()), Some(id));
    }
}

#[test]
fn cover_formats() {
    assert_eq!(cover_mime(Some("image/png")), CoverMime::Png);
    assert_eq!(cover_mime(Some("image/jpeg")), CoverMime::Jpeg);
    assert_eq!(cover_mime(Some("image/PNG")), CoverMime::Jpeg);
    assert_eq!(cover_mime(None), CoverMime::Jpeg);
}
