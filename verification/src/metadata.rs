//! Tags of a downloaded track: which edits a track receives (title,
//! artists, album, track number, release date, lyrics, the Netease song ID and
//! the cover), and how the song ID is read back from existing tags.

use vstd::prelude::*;
use chrono::{Datelike, TimeZone};
use crate::api::SongDetail;
use crate::text::{
    chars_of, string_of, append_chars, copy_range, push_decimal, decimal, parse_u64, parsed_u64,
    starts_with_chars, lemma_parse_decimal_roundtrip,
};

verus! {

/// Milliseconds in a day.
pub open spec fn day_millis() -> int {
    86_400_000
}

/// The day, counted from 1970-01-01, that the instant `ms` milliseconds after
/// the Unix epoch falls on (in UTC).
pub open spec fn millis_day(ms: int) -> int {
    ms / day_millis()
}

/// Whether `y` is a leap year of the proleptic Gregorian calendar.
pub open spec fn is_leap_year(y: int) -> bool {
    (y % 4 == 0 && y % 100 != 0) || y % 400 == 0
}

/// The number of days of month `m` of year `y`.
pub open spec fn days_in_month(y: int, m: int) -> int {
    if m == 2 {
        if is_leap_year(y) { 29 } else { 28 }
    } else if m == 4 || m == 6 || m == 9 || m == 11 {
        30
    } else {
        31
    }
}

/// Whether `y-m-d` is a date of the proleptic Gregorian calendar.
pub open spec fn valid_date(y: int, m: int, d: int) -> bool {
    1 <= m <= 12 && 1 <= d <= days_in_month(y, m)
}

/// The number of days from 1970-01-01 to the date `y-m-d` of the proleptic
/// Gregorian calendar (negative before 1970).
pub open spec fn days_from_civil(y: int, m: int, d: int) -> int {
    let y2 = if m <= 2 { y - 1 } else { y };
    let era = y2 / 400;
    let yoe = y2 - era * 400;
    let mp = if m > 2 { m - 3 } else { m + 9 };
    let doy = (153 * mp + 2) / 5 + d - 1;
    let doe = yoe * 365 + yoe / 4 - yoe / 100 + doy;
    era * 146097 + doe - 719468
}

/// The first day that `chrono` represents: -262143-01-01.
pub open spec fn first_supported_day() -> int {
    days_from_civil(-262143, 1, 1)
}

/// The last day that `chrono` represents: +262142-12-31.
pub open spec fn last_supported_day() -> int {
    days_from_civil(262142, 12, 31)
}

/// Whether `date` is the UTC calendar date of the instant `ms`: there is one
/// exactly when the day lies in the range `chrono` represents, and then it is
/// the date of that day.
pub open spec fn is_utc_date_of(ms: int, date: Option<(i32, u32, u32)>) -> bool {
    &&& (date is Some <==> first_supported_day() <= millis_day(ms) <= last_supported_day())
    &&& (date matches Some((y, m, d)) ==> valid_date(y as int, m as int, d as int)
        && days_from_civil(y as int, m as int, d as int) == millis_day(ms))
}

/// Calls `chrono::Utc.timestamp_millis_opt(ms).single()` and reads the year,
/// month and day of the result. As `chrono`'s source shows, the result is the
/// UTC calendar date of the instant, and there is none outside the years
/// -262143 to 262142.
#[verifier::external_body]
fn utc_date_of_millis(ms: i64) -> (r: Option<(i32, u32, u32)>)
    ensures
        is_utc_date_of(ms as int, r),
{
    chrono::Utc.timestamp_millis_opt(ms).single().map(|dt| (dt.year(), dt.month(), dt.day()))
}

/// Whether `date` is the release date that belongs to a song's publish time.
pub open spec fn is_release_date_of(publish_time: Option<i64>, date: Option<(i32, u32, u32)>) -> bool {
    match publish_time {
        Some(ms) => is_utc_date_of(ms as int, date),
        None => date is None,
    }
}

/// The UTC calendar date of a song's publish time, if it has one that
/// `chrono` represents.
pub fn release_date(publish_time: Option<i64>) -> (r: Option<(i32, u32, u32)>)
    ensures
        is_release_date_of(publish_time, r),
{
    match publish_time {
        Some(ms) => utc_date_of_millis(ms),
        None => None,
    }
}

/// `s` padded on the left with `0` to at least `w` characters.
pub open spec fn zero_pad(s: Seq<char>, w: nat) -> Seq<char> {
    if s.len() >= w {
        s
    } else {
        Seq::new((w - s.len()) as nat, |i: int| '0') + s
    }
}

/// The year as `chrono` renders `%Y`: four digits with leading zeros for the
/// years 0 to 9999, and otherwise a sign followed by at least four digits.
pub open spec fn year_text(y: int) -> Seq<char> {
    if 0 <= y <= 9999 {
        zero_pad(decimal(y as nat), 4)
    } else if y > 9999 {
        seq!['+'] + decimal(y as nat)
    } else {
        seq!['-'] + zero_pad(decimal((-y) as nat), 4)
    }
}

/// The date `y-m-d` as `chrono` renders `%Y-%m-%d`.
pub open spec fn date_text(y: int, m: nat, d: nat) -> Seq<char> {
    year_text(y) + seq!['-'] + zero_pad(decimal(m), 2) + seq!['-'] + zero_pad(decimal(d), 2)
}

fn push_padded(n: u64, w: usize, out: &mut Vec<char>)
    requires
        w <= 4,
    ensures
        final(out)@ == old(out)@ + zero_pad(decimal(n as nat), w as nat),
{
    let mut digits: Vec<char> = Vec::new();
    push_decimal(n, &mut digits);
    assert(digits@ =~= decimal(n as nat));
    let mut k = digits.len();
    let ghost base = out@;
    while k < w
        invariant
            digits@.len() <= k <= w || (k == digits@.len() && k >= w),
            out@ == base + Seq::new((k - digits@.len()) as nat, |i: int| '0'),
        decreases w - k,
    {
        out.push('0');
        k = k + 1;
        assert(out@ =~= base + Seq::new((k - digits@.len()) as nat, |i: int| '0'));
    }
    append_chars(out, &digits);
    assert(out@ =~= base + zero_pad(decimal(n as nat), w as nat));
}

/// Renders a date as `chrono` renders `%Y-%m-%d`.
pub fn date_string(y: i32, m: u32, d: u32) -> (r: String)
    ensures
        r@ == date_text(y as int, m as nat, d as nat),
{
    let mut cs: Vec<char> = Vec::new();
    if 0 <= y && y <= 9999 {
        push_padded(y as u64, 4, &mut cs);
    } else if y > 9999 {
        cs.push('+');
        push_decimal(y as u64, &mut cs);
    } else {
        cs.push('-');
        let a: u64 = (0i64 - (y as i64)) as u64;
        push_padded(a, 4, &mut cs);
    }
    assert(cs@ =~= year_text(y as int));
    cs.push('-');
    push_padded(m as u64, 2, &mut cs);
    cs.push('-');
    push_padded(d as u64, 2, &mut cs);
    assert(cs@ =~= date_text(y as int, m as nat, d as nat));
    string_of(&cs)
}

/// The image format of a cover.
#[derive(Clone, Copy, Debug, PartialEq, Eq)]
pub enum CoverMime {
    Png,
    Jpeg,
}

/// Cover art to embed: the image bytes and their format.
#[derive(Clone, Debug)]
pub struct CoverArt {
    pub bytes: Vec<u8>,
    pub mime: CoverMime,
}

/// The format of a cover served with the given `Content-Type`: PNG for
/// `image/png`, JPEG otherwise (also when the header is missing).
pub open spec fn cover_mime_spec(content_type: Option<Seq<char>>) -> CoverMime {
    match content_type {
        Some(t) => if t == "image/png"@ { CoverMime::Png } else { CoverMime::Jpeg },
        None => CoverMime::Jpeg,
    }
}

/// Picks the cover format from the `Content-Type` of the cover response.
pub fn cover_mime(content_type: Option<&str>) -> (r: CoverMime)
    ensures
        r == cover_mime_spec(match content_type { Some(t) => Some(t@), None => None }),
{
    match content_type {
        Some(t) => {
            let cs = chars_of(t);
            let png = chars_of("image/png");
            if crate::text::chars_eq(&cs, &png) {
                CoverMime::Png
            } else {
                CoverMime::Jpeg
            }
        },
        None => CoverMime::Jpeg,
    }
}

/// One edit to the primary tag of a track.
pub enum TagEdit {
    /// Set the title.
    SetTitle(String),
    /// Remove every track artist, then add these in order.
    ReplaceArtists(Vec<String>),
    /// Set the album title.
    SetAlbum(String),
    /// Set the track number.
    SetTrack(u32),
    /// Set the year.
    SetYear(u32),
    /// Set the release date (text `YYYY-MM-DD`).
    SetReleaseDate(String),
    /// Set the lyrics.
    SetLyrics(String),
    /// Set the custom `NETEASE_ID` item to the song ID in decimal.
    SetNeteaseId(String),
    /// Set the comment to `NETEASE_ID:` followed by the song ID.
    SetComment(String),
    /// Remove every picture, then add this one as the front cover.
    ReplaceCover(CoverArt),
}

/// A tag edit as plain values.
pub enum TagEditView {
    SetTitle(Seq<char>),
    ReplaceArtists(Seq<Seq<char>>),
    SetAlbum(Seq<char>),
    SetTrack(u32),
    SetYear(u32),
    SetReleaseDate(Seq<char>),
    SetLyrics(Seq<char>),
    SetNeteaseId(Seq<char>),
    SetComment(Seq<char>),
    ReplaceCover(Seq<u8>, CoverMime),
}

/// The texts of a list of strings.
pub open spec fn texts(v: Seq<String>) -> Seq<Seq<char>> {
    v.map_values(|s: String| s@)
}

impl View for TagEdit {
    type V = TagEditView;

    open spec fn view(&self) -> TagEditView {
        match self {
            TagEdit::SetTitle(s) => TagEditView::SetTitle(s@),
            TagEdit::ReplaceArtists(v) => TagEditView::ReplaceArtists(texts(v@)),
            TagEdit::SetAlbum(s) => TagEditView::SetAlbum(s@),
            TagEdit::SetTrack(n) => TagEditView::SetTrack(*n),
            TagEdit::SetYear(n) => TagEditView::SetYear(*n),
            TagEdit::SetReleaseDate(s) => TagEditView::SetReleaseDate(s@),
            TagEdit::SetLyrics(s) => TagEditView::SetLyrics(s@),
            TagEdit::SetNeteaseId(s) => TagEditView::SetNeteaseId(s@),
            TagEdit::SetComment(s) => TagEditView::SetComment(s@),
            TagEdit::ReplaceCover(c) => TagEditView::ReplaceCover(c.bytes@, c.mime),
        }
    }
}

/// The edits to apply to a track's primary tag, in order.
pub struct TagPlan {
    pub edits: Vec<TagEdit>,
}

/// The edits of a plan, as plain values.
pub open spec fn edits_view(v: Seq<TagEdit>) -> Seq<TagEditView> {
    v.map_values(|e: TagEdit| e@)
}

/// The text of an optional string.
pub open spec fn opt_text(s: Option<String>) -> Option<Seq<char>> {
    match s {
        Some(t) => Some(t@),
        None => None,
    }
}

/// The names of a song's artists.
pub open spec fn artist_names(artists: Seq<crate::api::SongArtist>) -> Seq<Seq<char>> {
    artists.map_values(|a: crate::api::SongArtist| a.name@)
}

/// The prefix of the comment that records the song ID.
pub open spec fn id_comment_prefix() -> Seq<char> {
    seq!['N', 'E', 'T', 'E', 'A', 'S', 'E', '_', 'I', 'D', ':']
}

/// The comment that records the song ID `id`.
pub open spec fn id_comment(id: u64) -> Seq<char> {
    id_comment_prefix() + decimal(id as nat)
}

/// The descriptive edits: title, artists, album, track number, year and
/// release date, and lyrics, each only where the song has it.
pub open spec fn descriptive_edits(detail: SongDetail, lyric: Option<Seq<char>>, date: Option<(i32, u32, u32)>) -> Seq<TagEditView> {
    seq![TagEditView::SetTitle(detail.name@)] + (match detail.ar {
        Some(a) => seq![TagEditView::ReplaceArtists(artist_names(a@))],
        None => Seq::empty(),
    }) + (match detail.al {
        Some(al) => match al.name {
            Some(n) => seq![TagEditView::SetAlbum(n@)],
            None => Seq::empty(),
        },
        None => Seq::empty(),
    }) + (match detail.no {
        Some(n) => seq![TagEditView::SetTrack(n)],
        None => Seq::empty(),
    }) + (match date {
        Some((y, m, d)) => seq![
            TagEditView::SetYear(y as u32),
            TagEditView::SetReleaseDate(date_text(y as int, m as nat, d as nat)),
        ],
        None => Seq::empty(),
    }) + (match lyric {
        Some(l) => seq![TagEditView::SetLyrics(l)],
        None => Seq::empty(),
    })
}

/// All edits for a downloaded track: the descriptive ones unless metadata is
/// switched off, then always the song ID (as a custom item and as a comment),
/// then the cover when there is one.
pub open spec fn planned_edits(
    detail: SongDetail,
    lyric: Option<Seq<char>>,
    cover: Option<(Seq<u8>, CoverMime)>,
    no_metadata: bool,
    date: Option<(i32, u32, u32)>,
) -> Seq<TagEditView> {
    (if no_metadata { Seq::empty() } else { descriptive_edits(detail, lyric, date) }) + seq![
        TagEditView::SetNeteaseId(decimal(detail.id as nat)),
        TagEditView::SetComment(id_comment(detail.id)),
    ] + (match cover {
        Some((b, m)) => seq![TagEditView::ReplaceCover(b, m)],
        None => Seq::empty(),
    })
}

/// A cover as plain values.
pub open spec fn cover_view(cover: Option<CoverArt>) -> Option<(Seq<u8>, CoverMime)> {
    match cover {
        Some(c) => Some((c.bytes@, c.mime)),
        None => None,
    }
}

fn push_edit(edits: &mut Vec<TagEdit>, e: TagEdit)
    ensures
        edits_view(final(edits)@) == edits_view(old(edits)@).push(e@),
{
    edits.push(e);
    assert(edits_view(edits@) =~= edits_view(old(edits)@).push(e@));
}

fn clone_artist_names(artists: &Vec<crate::api::SongArtist>) -> (r: Vec<String>)
    ensures
        texts(r@) == artist_names(artists@),
{
    let mut r: Vec<String> = Vec::new();
    let mut i: usize = 0;
    while i < artists.len()
        invariant
            i <= artists@.len(),
            texts(r@) == artist_names(artists@.subrange(0, i as int)),
            r@.len() == i,
        decreases artists.len() - i,
    {
        let name = artists[i].name.clone();
        let ghost before = r@;
        r.push(name);
        assert(r@ == before.push(name));
        assert(artists@.subrange(0, i + 1) =~= artists@.subrange(0, i as int).push(artists@[i as int]));
        i = i + 1;
        assert forall|j: int| 0 <= j < i - 1 implies texts(r@)[j] == artist_names(artists@.subrange(0, i as int))[j] by {
            assert(texts(before)[j] == artist_names(artists@.subrange(0, i - 1))[j]);
        }
        assert(texts(r@) =~= artist_names(artists@.subrange(0, i as int)));
    }
    assert(artists@.subrange(0, artists@.len() as int) =~= artists@);
    r
}

/// The tag edits for a downloaded track, given the release date that belongs
/// to its publish time (see `planned_edits`).
pub fn tag_plan_with_date(
    detail: &SongDetail,
    lyric: Option<String>,
    cover: Option<CoverArt>,
    no_metadata: bool,
    date: Option<(i32, u32, u32)>,
) -> (r: TagPlan)
    ensures
        edits_view(r.edits@) == planned_edits(*detail, opt_text(lyric), cover_view(cover), no_metadata, date),
        !no_metadata ==> edits_view(r.edits@).contains(TagEditView::SetTitle(detail.name@)),
        !no_metadata && detail.ar is Some ==> edits_view(r.edits@).contains(
            TagEditView::ReplaceArtists(
                Seq::new(detail.ar->0@.len(), |i: int| detail.ar->0@[i].name@),
            ),
        ),
        !no_metadata && lyric is Some ==> edits_view(r.edits@).contains(TagEditView::SetLyrics(lyric->0@)),
{
    let mut edits: Vec<TagEdit> = Vec::new();
    if !no_metadata {
        push_edit(&mut edits, TagEdit::SetTitle(detail.name.clone()));
        match &detail.ar {
            Some(a) => {
                push_edit(&mut edits, TagEdit::ReplaceArtists(clone_artist_names(a)));
            },
            None => {},
        }
        match &detail.al {
            Some(al) => match &al.name {
                Some(n) => {
                    push_edit(&mut edits, TagEdit::SetAlbum(n.clone()));
                },
                None => {},
            },
            None => {},
        }
        match detail.no {
            Some(n) => {
                push_edit(&mut edits, TagEdit::SetTrack(n));
            },
            None => {},
        }
        match date {
            Some((y, m, d)) => {
                push_edit(&mut edits, TagEdit::SetYear(y as u32));
                push_edit(&mut edits, TagEdit::SetReleaseDate(date_string(y, m, d)));
            },
            None => {},
        }
        match lyric {
            Some(l) => {
                push_edit(&mut edits, TagEdit::SetLyrics(l));
            },
            None => {},
        }
        assert(edits_view(edits@) =~= descriptive_edits(*detail, opt_text(lyric), date));
    }
    let ghost head = edits_view(edits@);
    let mut id_text: Vec<char> = Vec::new();
    push_decimal(detail.id, &mut id_text);
    assert(id_text@ =~= decimal(detail.id as nat));
    let mut comment = chars_of("NETEASE_ID:");
    proof {
        reveal_strlit("NETEASE_ID:");
        assert(comment@ =~= id_comment_prefix());
    }
    append_chars(&mut comment, &id_text);
    push_edit(&mut edits, TagEdit::SetNeteaseId(string_of(&id_text)));
    push_edit(&mut edits, TagEdit::SetComment(string_of(&comment)));
    match cover {
        Some(c) => {
            push_edit(&mut edits, TagEdit::ReplaceCover(c));
        },
        None => {},
    }
    assert(edits_view(edits@) =~= planned_edits(*detail, opt_text(lyric), cover_view(cover), no_metadata, date));
    proof {
        lemma_plan_describes_song(*detail, opt_text(lyric), cover_view(cover), no_metadata, date);
    }
    TagPlan { edits }
}

/// The tag edits for a downloaded track: metadata (unless switched off),
/// lyrics, the song ID and the cover (see `planned_edits`), with the release
/// date taken from the song's publish time.
pub fn tag_plan(
    detail: &SongDetail,
    lyric: Option<String>,
    cover: Option<CoverArt>,
    no_metadata: bool,
) -> (r: TagPlan)
    ensures
        exists|date: Option<(i32, u32, u32)>|
            is_release_date_of(detail.publish_time, date) && edits_view(r.edits@) == planned_edits(
                *detail,
                opt_text(lyric),
                cover_view(cover),
                no_metadata,
                date,
            ),
        !no_metadata ==> edits_view(r.edits@).contains(TagEditView::SetTitle(detail.name@)),
        !no_metadata && detail.ar is Some ==> edits_view(r.edits@).contains(
            TagEditView::ReplaceArtists(
                Seq::new(detail.ar->0@.len(), |i: int| detail.ar->0@[i].name@),
            ),
        ),
        !no_metadata && lyric is Some ==> edits_view(r.edits@).contains(TagEditView::SetLyrics(lyric->0@)),
{
    let date = release_date(detail.publish_time);
    let r = tag_plan_with_date(detail, lyric, cover, no_metadata, date);
    assert(is_release_date_of(detail.publish_time, date) && edits_view(r.edits@) == planned_edits(
        *detail,
        opt_text(lyric),
        cover_view(cover),
        no_metadata,
        date,
    ));
    r
}


/// The song ID recorded in a comment: the text after `NETEASE_ID:`, read as
/// a `u64`.
pub open spec fn id_in_comment(c: Seq<char>) -> Option<u64> {
    let p = id_comment_prefix();
    if p.len() <= c.len() && c.subrange(0, p.len() as int) == p {
        parsed_u64(c.subrange(p.len() as int, c.len() as int))
    } else {
        None
    }
}

/// The song ID of the first comment, in tag order, that records one.
pub open spec fn first_comment_id(comments: Seq<Seq<char>>) -> Option<u64>
    decreases comments.len(),
{
    if comments.len() == 0 {
        None
    } else {
        match id_in_comment(comments[0]) {
            Some(id) => Some(id),
            None => first_comment_id(comments.drop_first()),
        }
    }
}

/// The song ID recorded in a track's primary tag: from the first comment
/// that records one, or else from the custom `NETEASE_ID` item.
pub open spec fn tagged_song_id(comments: Seq<Seq<char>>, custom: Option<Seq<char>>) -> Option<u64> {
    match first_comment_id(comments) {
        Some(id) => Some(id),
        None => match custom {
            Some(t) => parsed_u64(t),
            None => None,
        },
    }
}

/// Reads the song ID from the text comments of a track's primary tag (in tag
/// order) and its custom `NETEASE_ID` item (see `tagged_song_id`).
pub fn song_id_from_tags(comments: &Vec<String>, custom: Option<&str>) -> (r: Option<u64>)
    ensures
        r == tagged_song_id(texts(comments@), match custom { Some(t) => Some(t@), None => None }),
{
    let prefix = chars_of("NETEASE_ID:");
    proof {
        reveal_strlit("NETEASE_ID:");
        assert(prefix@ =~= id_comment_prefix());
    }
    let n = comments.len();
    let ghost all = texts(comments@);
    let mut i: usize = 0;
    assert(all.subrange(0, n as int) =~= all);
    while i < n
        invariant
            i <= n == comments@.len(),
            all == texts(comments@),
            prefix@ == id_comment_prefix(),
            first_comment_id(all) == first_comment_id(all.subrange(i as int, n as int)),
        decreases n - i,
    {
        let c = chars_of(comments[i].as_str());
        let ghost rest = all.subrange(i as int, n as int);
        assert(rest[0] == c@);
        assert(rest.drop_first() =~= all.subrange(i + 1, n as int));
        if starts_with_chars(&c, &prefix) {
            let tail = copy_range(&c, prefix.len(), c.len());
            match parse_u64(&tail) {
                Some(id) => {
                    return Some(id);
                },
                None => {},
            }
        }
        i = i + 1;
    }
    match custom {
        Some(t) => parse_u64(&chars_of(t)),
        None => None,
    }
}

/// The comment that a plan writes is read back as the song's ID, whatever
/// else the custom item holds.
pub proof fn lemma_id_comment_read_back(id: u64, custom: Option<Seq<char>>)
    ensures
        tagged_song_id(seq![id_comment(id)], custom) == Some(id),
{
    let c = id_comment(id);
    let p = id_comment_prefix();
    assert(c.subrange(0, p.len() as int) =~= p);
    assert(c.subrange(p.len() as int, c.len() as int) =~= decimal(id as nat));
    lemma_parse_decimal_roundtrip(id);
}

/// The custom item that a plan writes is read back as the song's ID when no
/// comment records one.
pub proof fn lemma_custom_id_read_back(id: u64)
    ensures
        tagged_song_id(Seq::empty(), Some(decimal(id as nat))) == Some(id),
{
    lemma_parse_decimal_roundtrip(id);
}

/// With metadata on, a plan sets the song's title, replaces the artists by
/// the song's artists in order (however many there are), and sets the
/// lyric when there is one; a cover, when there is one, replaces the
/// pictures whether or not metadata is on.
pub proof fn lemma_plan_describes_song(
    detail: SongDetail,
    lyric: Option<Seq<char>>,
    cover: Option<(Seq<u8>, CoverMime)>,
    no_metadata: bool,
    date: Option<(i32, u32, u32)>,
)
    ensures
        !no_metadata ==> planned_edits(detail, lyric, cover, no_metadata, date).contains(
            TagEditView::SetTitle(detail.name@),
        ),
        !no_metadata && detail.ar is Some ==> planned_edits(detail, lyric, cover, no_metadata, date).contains(
            TagEditView::ReplaceArtists(
                Seq::new(detail.ar->0@.len(), |i: int| detail.ar->0@[i].name@),
            ),
        ),
        !no_metadata && lyric is Some ==> planned_edits(detail, lyric, cover, no_metadata, date).contains(
            TagEditView::SetLyrics(lyric->0),
        ),
        cover matches Some((b, m)) ==> planned_edits(detail, lyric, cover, no_metadata, date).contains(
            TagEditView::ReplaceCover(b, m),
        ),
{
    let e = planned_edits(detail, lyric, cover, no_metadata, date);
    let d = descriptive_edits(detail, lyric, date);
    let head: Seq<TagEditView> = if no_metadata { Seq::empty() } else { d };
    let ids = seq![
        TagEditView::SetNeteaseId(decimal(detail.id as nat)),
        TagEditView::SetComment(id_comment(detail.id)),
    ];
    let tail: Seq<TagEditView> = match cover {
        Some((b, m)) => seq![TagEditView::ReplaceCover(b, m)],
        None => Seq::empty(),
    };
    assert(e == head + ids + tail);
    if !no_metadata {
        assert(e[0] == d[0]);
        if detail.ar is Some {
            let a = detail.ar->0;
            assert(artist_names(a@) =~= Seq::new(a@.len(), |i: int| a@[i].name@));
            assert(e[1] == d[1]);
        }
        if lyric is Some {
            assert(d[d.len() - 1] == TagEditView::SetLyrics(lyric->0));
            assert(e[d.len() - 1] == d[d.len() - 1]);
        }
    }
    if let Some((b, m)) = cover {
        assert(e[e.len() - 1] == TagEditView::ReplaceCover(b, m));
    }
}

/// Every plan writes the song ID both as the custom item and as a comment,
/// and what it writes is read back as that ID.
pub proof fn lemma_plan_records_song_id(
    detail: SongDetail,
    lyric: Option<Seq<char>>,
    cover: Option<(Seq<u8>, CoverMime)>,
    no_metadata: bool,
    date: Option<(i32, u32, u32)>,
)
    ensures
        planned_edits(detail, lyric, cover, no_metadata, date).contains(
            TagEditView::SetNeteaseId(decimal(detail.id as nat)),
        ),
        planned_edits(detail, lyric, cover, no_metadata, date).contains(
            TagEditView::SetComment(id_comment(detail.id)),
        ),
        tagged_song_id(seq![id_comment(detail.id)], Some(decimal(detail.id as nat))) == Some(detail.id),
        tagged_song_id(Seq::empty(), Some(decimal(detail.id as nat))) == Some(detail.id),
{
    let e = planned_edits(detail, lyric, cover, no_metadata, date);
    let head: Seq<TagEditView> = if no_metadata { Seq::empty() } else { descriptive_edits(detail, lyric, date) };
    assert(e[head.len() as int] == TagEditView::SetNeteaseId(decimal(detail.id as nat)));
    assert(e[head.len() as int + 1] == TagEditView::SetComment(id_comment(detail.id)));
    lemma_id_comment_read_back(detail.id, Some(decimal(detail.id as nat)));
    lemma_custom_id_read_back(detail.id);
}

} // verus!
