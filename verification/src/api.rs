//! The Netease API: the shapes of its responses, the requests the downloader
//! sends, how request URLs are formed, and what is read out of each reply.

use vstd::prelude::*;
use vstd::utf8::encode_utf8;
use url::ParseError;
use std::collections::HashMap;
use crate::config::DownloadConfig;
use crate::metadata::opt_text;
use crate::text::{chars_of, string_of, utf8_len, append_chars, append_str, copy_range, push_decimal, decimal};

verus! {

/// An artist credited on a song.
#[derive(Clone, Debug)]
pub struct SongArtist {
    pub name: String,
}

/// The album a song belongs to.
#[derive(Clone, Debug)]
pub struct SongAlbum {
    pub name: Option<String>,
    pub pic_url: Option<String>,
}

/// The details of one song.
#[derive(Clone, Debug)]
pub struct SongDetail {
    pub id: u64,
    pub name: String,
    pub ar: Option<Vec<SongArtist>>,
    pub al: Option<SongAlbum>,
    /// The track number.
    pub no: Option<u32>,
    /// Milliseconds since the Unix epoch.
    pub publish_time: Option<i64>,
}

/// The reply to `song/detail`.
#[derive(Clone, Debug)]
pub struct SongDetailResponse {
    pub songs: Option<Vec<SongDetail>>,
}

/// A song listed in an album or a playlist.
#[derive(Clone, Debug)]
pub struct AlbumResponseSong {
    pub id: u64,
}

/// The reply to `album`.
#[derive(Clone, Debug)]
pub struct AlbumResponse {
    pub songs: Option<Vec<AlbumResponseSong>>,
}

/// The reply to `playlist/track/all`.
#[derive(Clone, Debug)]
pub struct PlaylistTrackResponse {
    pub songs: Option<Vec<AlbumResponseSong>>,
}

/// Where a song can be downloaded from, and its file type.
#[derive(Clone, Debug)]
pub struct SongUrlData {
    pub url: Option<String>,
    pub file_type: Option<String>,
}

/// The reply to `song/url`.
#[derive(Clone, Debug)]
pub struct SongUrlResponse {
    pub data: Option<Vec<SongUrlData>>,
}

/// The lyric of a song.
#[derive(Clone, Debug)]
pub struct LyricInfo {
    pub lyric: Option<String>,
}

/// The reply to `lyric`.
#[derive(Clone, Debug)]
pub struct LyricResponse {
    pub lrc: Option<LyricInfo>,
}

/// The largest number of song IDs asked for in one `song/detail` request.
pub const DETAIL_BATCH_SIZE: usize = 100;

/// A request to the API: the endpoint path and its query parameters.
pub struct ApiRequest {
    pub path: String,
    pub params: Vec<(String, String)>,
}

/// A list of text pairs, as plain text.
pub open spec fn pairs_view(v: Seq<(String, String)>) -> Seq<(Seq<char>, Seq<char>)> {
    v.map_values(|p: (String, String)| (p.0@, p.1@))
}

/// A list of string-slice pairs, as plain text.
pub open spec fn str_pairs_view(v: Seq<(&str, &str)>) -> Seq<(Seq<char>, Seq<char>)> {
    v.map_values(|p: (&str, &str)| (p.0@, p.1@))
}

/// The endpoint path and parameters of a request, as plain text.
pub open spec fn request_view(r: ApiRequest) -> (Seq<char>, Seq<(Seq<char>, Seq<char>)>) {
    (r.path@, pairs_view(r.params@))
}

/// The IDs of `ids` written in decimal and separated by commas.
pub open spec fn id_list_text(ids: Seq<u64>) -> Seq<char>
    decreases ids.len(),
{
    if ids.len() == 0 {
        Seq::empty()
    } else if ids.len() == 1 {
        decimal(ids[0] as nat)
    } else {
        id_list_text(ids.drop_last()) + seq![','] + decimal(ids.last() as nat)
    }
}

/// The `i`-th batch of at most `DETAIL_BATCH_SIZE` IDs.
pub open spec fn detail_batch(ids: Seq<u64>, i: int) -> Seq<u64> {
    let lo = i * 100;
    let hi = if lo + 100 <= ids.len() { lo + 100 } else { ids.len() as int };
    ids.subrange(lo, hi)
}

/// The number of batches that `ids` is split into.
pub open spec fn detail_batch_count(ids: Seq<u64>) -> nat {
    ((ids.len() + 99) / 100) as nat
}

/// The first `k` batches of `ids`, one after the other.
pub open spec fn joined_batches(ids: Seq<u64>, k: nat) -> Seq<u64>
    decreases k,
{
    if k == 0 {
        Seq::empty()
    } else {
        joined_batches(ids, (k - 1) as nat) + detail_batch(ids, k - 1)
    }
}

proof fn lemma_joined_batches_prefix(ids: Seq<u64>, k: nat)
    requires
        k <= detail_batch_count(ids),
    ensures
        joined_batches(ids, k) == ids.subrange(0, if k * 100 <= ids.len() { (k * 100) as int } else { ids.len() as int }),
    decreases k,
{
    if k == 0 {
        assert(ids.subrange(0, 0) =~= Seq::<u64>::empty());
    } else {
        lemma_joined_batches_prefix(ids, (k - 1) as nat);
        let lo = (k - 1) * 100;
        let hi = if k * 100 <= ids.len() { (k * 100) as int } else { ids.len() as int };
        assert(lo <= ids.len());
        assert(ids.subrange(0, lo) + ids.subrange(lo, hi) =~= ids.subrange(0, hi));
    }
}

/// The detail requests ask for every song exactly once and in order: their
/// batches, one after the other, are the song list, and each holds between
/// 1 and 100 IDs.
pub proof fn lemma_batches_cover_ids(ids: Seq<u64>)
    ensures
        joined_batches(ids, detail_batch_count(ids)) == ids,
        forall|i: int| 0 <= i < detail_batch_count(ids) ==> 0 < (#[trigger] detail_batch(ids, i)).len() <= 100,
{
    lemma_joined_batches_prefix(ids, detail_batch_count(ids));
    assert(ids.subrange(0, ids.len() as int) =~= ids);
}

/// Writes the IDs of `ids[from..to]` in decimal, separated by commas.
pub fn id_list(ids: &Vec<u64>, from: usize, to: usize) -> (r: String)
    requires
        from <= to <= ids.len(),
    ensures
        r@ == id_list_text(ids@.subrange(from as int, to as int)),
{
    let mut cs: Vec<char> = Vec::new();
    let mut i = from;
    while i < to
        invariant
            from <= i <= to <= ids.len(),
            cs@ == id_list_text(ids@.subrange(from as int, i as int)),
        decreases to - i,
    {
        let ghost before = ids@.subrange(from as int, i as int);
        let ghost after = ids@.subrange(from as int, i + 1);
        assert(after.drop_last() =~= before);
        assert(after.last() == ids@[i as int]);
        if i > from {
            cs.push(',');
        }
        push_decimal(ids[i], &mut cs);
        i = i + 1;
        proof {
            if before.len() == 0 {
                assert(cs@ =~= decimal(after.last() as nat));
            } else {
                assert(cs@ =~= id_list_text(before) + seq![','] + decimal(after.last() as nat));
            }
        }
    }
    string_of(&cs)
}

/// The `song/detail` requests for the details of `song_ids`, one for each
/// batch of at most 100 IDs, in order.
pub fn song_detail_requests(song_ids: &Vec<u64>) -> (r: Vec<ApiRequest>)
    ensures
        r@.len() == detail_batch_count(song_ids@),
        forall|i: int|
            0 <= i < r@.len() ==> #[trigger] request_view(r@[i]) == ("song/detail"@, seq![
                ("ids"@, id_list_text(detail_batch(song_ids@, i))),
            ]),
{
    let n = song_ids.len();
    let mut r: Vec<ApiRequest> = Vec::new();
    let mut lo: usize = 0;
    while lo < n
        invariant
            n == song_ids@.len(),
            lo <= n,
            lo < n ==> lo == r@.len() * 100,
            lo < n ==> r@.len() < detail_batch_count(song_ids@),
            lo == n ==> r@.len() == detail_batch_count(song_ids@),
            forall|i: int|
                0 <= i < r@.len() ==> #[trigger] request_view(r@[i]) == ("song/detail"@, seq![
                    ("ids"@, id_list_text(detail_batch(song_ids@, i))),
                ]),
        decreases n - lo,
    {
        let hi = if n - lo >= DETAIL_BATCH_SIZE { lo + DETAIL_BATCH_SIZE } else { n };
        let text = id_list(song_ids, lo, hi);
        let mut params: Vec<(String, String)> = Vec::new();
        params.push((string_of(&chars_of("ids")), text));
        let req = ApiRequest { path: string_of(&chars_of("song/detail")), params };
        proof {
            let i = r@.len() as int;
            assert(detail_batch(song_ids@, i) == song_ids@.subrange(lo as int, hi as int));
            assert(request_view(req).1 =~= seq![("ids"@, id_list_text(detail_batch(song_ids@, i)))]);
        }
        r.push(req);
        lo = hi;
    }
    r
}

/// The request for the songs of an album.
pub fn album_request(album_id: u64) -> (r: ApiRequest)
    ensures
        request_view(r) == ("album"@, seq![("id"@, decimal(album_id as nat))]),
{
    single_param_request("album", "id", album_id)
}

/// The request for the songs of a playlist.
pub fn playlist_request(playlist_id: u64) -> (r: ApiRequest)
    ensures
        request_view(r) == ("playlist/track/all"@, seq![("id"@, decimal(playlist_id as nat))]),
{
    single_param_request("playlist/track/all", "id", playlist_id)
}

/// The request for the lyric of a song.
pub fn lyric_request(song_id: u64) -> (r: ApiRequest)
    ensures
        request_view(r) == ("lyric"@, seq![("id"@, decimal(song_id as nat))]),
{
    single_param_request("lyric", "id", song_id)
}

fn decimal_string(n: u64) -> (r: String)
    ensures
        r@ == decimal(n as nat),
{
    let mut cs: Vec<char> = Vec::new();
    push_decimal(n, &mut cs);
    assert(cs@ =~= decimal(n as nat));
    string_of(&cs)
}

fn single_param_request(path: &str, key: &str, value: u64) -> (r: ApiRequest)
    ensures
        request_view(r) == (path@, seq![(key@, decimal(value as nat))]),
{
    let mut params: Vec<(String, String)> = Vec::new();
    params.push((string_of(&chars_of(key)), decimal_string(value)));
    let r = ApiRequest { path: string_of(&chars_of(path)), params };
    assert(request_view(r).1 =~= seq![(key@, decimal(value as nat))]);
    r
}

/// The request for the download URL of a song, at the target bitrate when
/// one is set.
pub fn song_url_request(song_id: u64, br: Option<u32>) -> (r: ApiRequest)
    ensures
        request_view(r) == ("song/url"@, match br {
            Some(b) => seq![("id"@, decimal(song_id as nat)), ("br"@, decimal(b as nat))],
            None => seq![("id"@, decimal(song_id as nat))],
        }),
{
    let mut params: Vec<(String, String)> = Vec::new();
    params.push((string_of(&chars_of("id")), decimal_string(song_id)));
    match br {
        Some(b) => {
            params.push((string_of(&chars_of("br")), decimal_string(b as u64)));
        },
        None => {},
    }
    let r = ApiRequest { path: string_of(&chars_of("song/url")), params };
    assert(request_view(r).1 =~= match br {
        Some(b) => seq![("id"@, decimal(song_id as nat)), ("br"@, decimal(b as nat))],
        None => seq![("id"@, decimal(song_id as nat))],
    });
    r
}

/// The IDs of the songs listed in a reply, in order.
pub open spec fn listed_ids(songs: Option<Vec<AlbumResponseSong>>) -> Seq<u64> {
    match songs {
        Some(v) => v@.map_values(|s: AlbumResponseSong| s.id),
        None => Seq::empty(),
    }
}

fn collect_ids(songs: &Option<Vec<AlbumResponseSong>>) -> (r: Vec<u64>)
    ensures
        r@ == listed_ids(*songs),
{
    let mut r: Vec<u64> = Vec::new();
    match songs {
        Some(v) => {
            let mut i: usize = 0;
            while i < v.len()
                invariant
                    i <= v@.len(),
                    r@ == v@.subrange(0, i as int).map_values(|s: AlbumResponseSong| s.id),
                decreases v.len() - i,
            {
                r.push(v[i].id);
                i = i + 1;
                assert(r@ =~= v@.subrange(0, i as int).map_values(|s: AlbumResponseSong| s.id));
            }
            assert(v@.subrange(0, v@.len() as int) =~= v@);
        },
        None => {},
    }
    r
}

/// The IDs of the songs in an album reply, in order.
pub fn album_song_ids(body: &AlbumResponse) -> (r: Vec<u64>)
    ensures
        r@ == listed_ids(body.songs),
{
    collect_ids(&body.songs)
}

/// The IDs of the songs in a playlist reply, in order.
pub fn playlist_song_ids(body: &PlaylistTrackResponse) -> (r: Vec<u64>)
    ensures
        r@ == listed_ids(body.songs),
{
    collect_ids(&body.songs)
}

/// The first entry of a `song/url` reply, if it has one.
pub fn first_song_url(body: SongUrlResponse) -> (r: Option<SongUrlData>)
    ensures
        r == (match body.data {
            Some(v) => if v@.len() > 0 { Some(v@[0]) } else { None },
            None => None,
        }),
{
    match body.data {
        Some(mut data_list) => {
            if data_list.len() > 0 {
                Some(data_list.remove(0))
            } else {
                None
            }
        },
        None => None,
    }
}

/// The lyric text of a `lyric` reply, if it has one.
pub fn lyric_text(body: LyricResponse) -> (r: Option<String>)
    ensures
        r == (match body.lrc {
            Some(l) => l.lyric,
            None => None,
        }),
{
    match body.lrc {
        Some(l) => l.lyric,
        None => None,
    }
}

/// The details map after inserting `songs` one after the other: a later
/// song with the same ID replaces an earlier one.
pub open spec fn with_songs(m: Map<u64, SongDetail>, songs: Seq<SongDetail>) -> Map<u64, SongDetail>
    decreases songs.len(),
{
    if songs.len() == 0 {
        m
    } else {
        with_songs(m, songs.drop_last()).insert(songs.last().id, songs.last())
    }
}

/// Records the songs of a `song/detail` reply in the details map, by ID.
pub fn record_song_details(details: &mut HashMap<u64, SongDetail>, body: SongDetailResponse)
    ensures
        final(details)@ == (match body.songs {
            Some(v) => with_songs(old(details)@, v@),
            None => old(details)@,
        }),
{
    broadcast use vstd::std_specs::hash::group_hash_axioms;
    match body.songs {
        Some(songs) => {
            let ghost start = details@;
            let ghost all = songs@;
            for song in iter: songs
                invariant
                    iter.seq() == all,
                    details@ == with_songs(start, all.subrange(0, iter.index() as int)),
            {
                let ghost k = iter.index() as int;
                assert(all.subrange(0, k + 1).drop_last() =~= all.subrange(0, k));
                details.insert(song.id, song);
            }
            assert(all.subrange(0, all.len() as int) =~= all);
        },
        None => {},
    }
}

#[verifier::external_type_specification]
#[verifier::external_body]
pub struct ExUrl(url::Url);


/// The serialization of a URL, the text that `url::Url::as_str` returns;
/// a `url::Url` holds it and is rebuilt from it alone.
pub uninterp spec fn url_text(u: url::Url) -> Seq<char>;

/// The serialization of the URL that `url::Url::parse` makes of `s`, or
/// `None` when it refuses `s`.
pub uninterp spec fn parsed_url_text(s: Seq<char>) -> Option<Seq<char>>;

/// The serialization of the URL with serialization `t` after
/// `query_pairs_mut().append_pair(key, value)`.
pub uninterp spec fn text_after_append_pair(t: Seq<char>, key: Seq<char>, value: Seq<char>) -> Seq<char>;

/// The query that `url::Url::query` gives for the URL with serialization
/// `t`.
pub uninterp spec fn url_query(t: Seq<char>) -> Option<Seq<char>>;

/// The serialization of the URL with serialization `t` after
/// `set_query(Some(query))`.
pub uninterp spec fn text_after_set_query(t: Seq<char>, query: Seq<char>) -> Seq<char>;

/// The refusal that `url::Url::parse` gives for `s`, as a `UrlError`.
pub uninterp spec fn url_parse_error(s: Seq<char>) -> UrlError;

/// Why a URL could not be made: the refusals of the `url` parser
/// (`url::ParseError`), one for one, and `Other` for one this version of the
/// parser does not know.
#[derive(Clone, Copy, Debug, PartialEq, Eq, Structural)]
pub enum UrlError {
    EmptyHost,
    IdnaError,
    InvalidPort,
    InvalidIpv4Address,
    InvalidIpv6Address,
    InvalidDomainCharacter,
    RelativeUrlWithoutBase,
    RelativeUrlWithCannotBeABaseBase,
    SetHostOnCannotBeABaseUrl,
    Overflow,
    Other,
}

/// Whether a URL whose serialization is `url_bytes` bytes long can take
/// input of `added_bytes` bytes that the URL percent-encodes (each byte
/// becomes at most 3), and up to three separators, without its offsets
/// passing 4 GiB.
pub open spec fn url_room(url_bytes: nat, added_bytes: nat) -> bool {
    url_bytes + 3 * added_bytes + 3 <= u32::MAX
}

/// Calls `url::Url::parse` (the `reqwest::Url` of the HTTP client) and
/// converts its error, variant for variant. The result is a function of the
/// text alone: it succeeds exactly when the parser makes a URL of `s`, that
/// URL's serialization is the one the parser makes, and a refusal is the
/// parser's refusal of `s`.
#[verifier::external_body]
fn parse_url(s: &str) -> (r: Result<url::Url, UrlError>)
    ensures
        r is Ok <==> parsed_url_text(s@) is Some,
        r matches Ok(u) ==> parsed_url_text(s@) == Some(url_text(u)),
        r matches Err(e) ==> e == url_parse_error(s@),
{
    match url::Url::parse(s) { Ok(u) => Ok(u), Err(e) => Err(match e {
            ParseError::EmptyHost => UrlError::EmptyHost,
            ParseError::IdnaError => UrlError::IdnaError,
            ParseError::InvalidPort => UrlError::InvalidPort,
            ParseError::InvalidIpv4Address => UrlError::InvalidIpv4Address,
            ParseError::InvalidIpv6Address => UrlError::InvalidIpv6Address,
            ParseError::InvalidDomainCharacter => UrlError::InvalidDomainCharacter,
            ParseError::RelativeUrlWithoutBase => UrlError::RelativeUrlWithoutBase,
            ParseError::RelativeUrlWithCannotBeABaseBase => UrlError::RelativeUrlWithCannotBeABaseBase,
            ParseError::SetHostOnCannotBeABaseUrl => UrlError::SetHostOnCannotBeABaseUrl,
            ParseError::Overflow => UrlError::Overflow,
            _ => UrlError::Other,
        }) }
}

/// Calls `url::Url::as_str`: the URL's serialization.
#[verifier::external_body]
fn url_as_text(u: &url::Url) -> (r: String)
    ensures
        r@ == url_text(*u),
{
    u.as_str().to_string()
}

/// Calls `url.query_pairs_mut().append_pair(key, value)`: appends one
/// `application/x-www-form-urlencoded` pair to the query. The new
/// serialization is a function of the old one, the key and the value. The
/// call panics when the serialization would reach 4 GiB, which `requires`
/// rules out.
#[verifier::external_body]
fn append_query_pair(url: &mut url::Url, key: &str, value: &str)
    requires
        url_room(encode_utf8(url_text(*old(url))).len(), encode_utf8(key@).len() + encode_utf8(value@).len()),
    ensures
        url_text(*final(url)) == text_after_append_pair(url_text(*old(url)), key@, value@),
{
    url.query_pairs_mut().append_pair(key, value);
}

/// Calls `url::Url::query`: the current query text, if any, a function of
/// the serialization.
#[verifier::external_body]
fn current_query(url: &url::Url) -> (r: Option<String>)
    ensures
        (match r {
            Some(q) => Some(q@),
            None => None,
        }) == url_query(url_text(*url)),
{
    url.query().map(|q| q.to_string())
}

/// Calls `url::Url::set_query` with `Some(query)`. The new serialization is
/// a function of the old one and the query. The call panics when the
/// serialization would reach 4 GiB, which `requires` rules out.
#[verifier::external_body]
fn replace_query(url: &mut url::Url, query: &str)
    requires
        url_room(encode_utf8(url_text(*old(url))).len(), encode_utf8(query@).len()),
    ensures
        url_text(*final(url)) == text_after_set_query(url_text(*old(url)), query@),
{
    url.set_query(Some(query));
}

/// `s` without the copies of `c` at its end.
pub open spec fn strip_end(s: Seq<char>, c: char) -> Seq<char>
    decreases s.len(),
{
    if s.len() > 0 && s.last() == c {
        strip_end(s.drop_last(), c)
    } else {
        s
    }
}

/// `s` without the copies of `c` at its start.
pub open spec fn strip_start(s: Seq<char>, c: char) -> Seq<char>
    decreases s.len(),
{
    if s.len() > 0 && s[0] == c {
        strip_start(s.drop_first(), c)
    } else {
        s
    }
}

/// The text of the endpoint URL: the API base without trailing slashes, one
/// slash, and the path without leading slashes.
pub open spec fn endpoint_text(api_base: Seq<char>, path: Seq<char>) -> Seq<char> {
    strip_end(api_base, '/') + seq!['/'] + strip_start(path, '/')
}

/// Joins the API base and an endpoint path with exactly one slash.
pub fn endpoint_url_text(api_base: &str, path: &str) -> (r: String)
    ensures
        r@ == endpoint_text(api_base@, path@),
{
    let b = chars_of(api_base);
    let p = chars_of(path);
    let mut hi = b.len();
    assert(b@.subrange(0, hi as int) =~= b@);
    while hi > 0 && b[hi - 1] == '/'
        invariant
            hi <= b@.len(),
            b@ == api_base@,
            strip_end(b@, '/') == strip_end(b@.subrange(0, hi as int), '/'),
        decreases hi,
    {
        assert(b@.subrange(0, hi as int).drop_last() =~= b@.subrange(0, hi - 1));
        hi = hi - 1;
    }
    let mut lo: usize = 0;
    assert(p@.subrange(0, p@.len() as int) =~= p@);
    while lo < p.len() && p[lo] == '/'
        invariant
            lo <= p@.len(),
            p@ == path@,
            strip_start(p@, '/') == strip_start(p@.subrange(lo as int, p@.len() as int), '/'),
        decreases p.len() - lo,
    {
        assert(p@.subrange(lo as int, p@.len() as int).drop_first() =~= p@.subrange(lo + 1, p@.len() as int));
        lo = lo + 1;
    }
    let mut out = copy_range(&b, 0, hi);
    out.push('/');
    let tail = copy_range(&p, lo, p.len());
    append_chars(&mut out, &tail);
    string_of(&out)
}

/// The query pairs of a request: its own parameters, then the cookie when
/// there is one, then `randomCNIP=true` (asking the API to bypass regional
/// limits).
pub open spec fn query_pairs_spec(params: Seq<(&str, &str)>, cookie: Option<&str>) -> Seq<(Seq<char>, Seq<char>)> {
    str_pairs_view(params) + (match cookie {
        Some(c) => seq![("cookie"@, c@)],
        None => Seq::empty(),
    }) + seq![("randomCNIP"@, "true"@)]
}

/// The query pairs of a request are its parameters in order, then the
/// cookie exactly when there is one, whatever it holds, then
/// `randomCNIP=true` last.
pub proof fn lemma_query_pairs_order(params: Seq<(&str, &str)>, cookie: Option<&str>)
    ensures
        query_pairs_spec(params, cookie).len() == params.len() + (if cookie is Some { 2int } else { 1int }),
        forall|i: int|
            0 <= i < params.len() ==> #[trigger] query_pairs_spec(params, cookie)[i] == (params[i].0@, params[i].1@),
        cookie matches Some(c) ==> query_pairs_spec(params, cookie)[params.len() as int] == ("cookie"@, c@),
        query_pairs_spec(params, cookie).last() == ("randomCNIP"@, "true"@),
{
}

/// Lists the query pairs of a request (see `query_pairs_spec`).
pub fn query_pairs(params: &[(&str, &str)], cookie: Option<&str>) -> (r: Vec<(String, String)>)
    ensures
        pairs_view(r@) == query_pairs_spec(params@, cookie),
        r@.len() == params@.len() + (if cookie is Some { 2int } else { 1int }),
        forall|i: int| 0 <= i < params@.len() ==> #[trigger] r@[i].0@ == params@[i].0@ && r@[i].1@ == params@[i].1@,
        cookie matches Some(c) ==> r@[params@.len() as int].0@ == "cookie"@ && r@[params@.len() as int].1@ == c@,
        r@.last().0@ == "randomCNIP"@ && r@.last().1@ == "true"@,
{
    let mut r: Vec<(String, String)> = Vec::new();
    let mut i: usize = 0;
    while i < params.len()
        invariant
            i <= params@.len(),
            pairs_view(r@) == str_pairs_view(params@.subrange(0, i as int)),
            r@.len() == i,
        decreases params.len() - i,
    {
        let k: &str = params[i].0;
        let v: &str = params[i].1;
        let ks = string_of(&chars_of(k));
        let vs = string_of(&chars_of(v));
        let ghost before = r@;
        r.push((ks, vs));
        assert(r@ == before.push((ks, vs)));
        assert(params@.subrange(0, i + 1) =~= params@.subrange(0, i as int).push(params@[i as int]));
        assert(ks@ == params@[i as int].0@);
        assert(vs@ == params@[i as int].1@);
        i = i + 1;
        assert forall|j: int| 0 <= j < i - 1 implies pairs_view(r@)[j] == str_pairs_view(params@.subrange(0, i as int))[j] by {
            assert(pairs_view(before)[j] == str_pairs_view(params@.subrange(0, i - 1))[j]);
        }
        assert(pairs_view(r@) =~= str_pairs_view(params@.subrange(0, i as int)));
    }
    assert(params@.subrange(0, params@.len() as int) =~= params@);
    match cookie {
        Some(c) => {
            r.push((string_of(&chars_of("cookie")), string_of(&chars_of(c))));
        },
        None => {},
    }
    r.push((string_of(&chars_of("randomCNIP")), string_of(&chars_of("true"))));
    assert(pairs_view(r@) =~= query_pairs_spec(params@, cookie));
    proof {
        lemma_query_pairs_order(params@, cookie);
        assert(pairs_view(r@).len() == r@.len());
        assert forall|i: int| 0 <= i < r@.len() implies (#[trigger] r@[i].0@, r@[i].1@) == query_pairs_spec(
            params@,
            cookie,
        )[i] by {
            assert(pairs_view(r@)[i] == (r@[i].0@, r@[i].1@));
        }
        assert((r@[r@.len() - 1].0@, r@[r@.len() - 1].1@) == query_pairs_spec(params@, cookie)[r@.len() - 1]);
    }
    r
}

/// The query after the raw custom query is added: joined with `&` to a
/// non-empty current query, or on its own.
pub open spec fn extended_query(current: Option<Seq<char>>, custom: Seq<char>) -> Seq<char> {
    match current {
        Some(q) => if q.len() > 0 { q + seq!['&'] + custom } else { custom },
        None => custom,
    }
}

/// Adds a raw custom query to the current one (see `extended_query`).
pub fn extend_query(current: Option<String>, custom: &str) -> (r: String)
    ensures
        r@ == extended_query(match current { Some(q) => Some(q@), None => None }, custom@),
{
    match current {
        Some(q) => {
            let mut cs = chars_of(q.as_str());
            if cs.len() > 0 {
                cs.push('&');
                append_str(&mut cs, custom);
                string_of(&cs)
            } else {
                string_of(&chars_of(custom))
            }
        },
        None => string_of(&chars_of(custom)),
    }
}

/// The serialization after the pairs are appended one by one to a URL with
/// serialization `t`.
pub open spec fn pairs_appended(t: Seq<char>, pairs: Seq<(Seq<char>, Seq<char>)>) -> Seq<char>
    decreases pairs.len(),
{
    if pairs.len() == 0 {
        t
    } else {
        text_after_append_pair(pairs_appended(t, pairs.drop_last()), pairs.last().0, pairs.last().1)
    }
}

/// Whether each of the pairs fits into the URL when its turn comes (see
/// `url_room`).
pub open spec fn pairs_fit(t: Seq<char>, pairs: Seq<(Seq<char>, Seq<char>)>) -> bool
    decreases pairs.len(),
{
    if pairs.len() == 0 {
        true
    } else {
        pairs_fit(t, pairs.drop_last()) && url_room(
            encode_utf8(pairs_appended(t, pairs.drop_last())).len(),
            encode_utf8(pairs.last().0).len() + encode_utf8(pairs.last().1).len(),
        )
    }
}

/// The serialization of a request's URL: the endpoint parsed, the query
/// pairs of `query_pairs_spec` appended in order, and then the raw custom
/// query added to the query (see `extended_query`); `None` when the
/// endpoint is not a URL or the URL would grow too long.
pub open spec fn built_url_text(
    api_base: Seq<char>,
    path: Seq<char>,
    params: Seq<(&str, &str)>,
    cookie: Option<&str>,
    custom: Option<Seq<char>>,
) -> Option<Seq<char>> {
    match parsed_url_text(endpoint_text(api_base, path)) {
        None => None,
        Some(t0) => {
            let pairs = query_pairs_spec(params, cookie);
            let t1 = pairs_appended(t0, pairs);
            if !pairs_fit(t0, pairs) {
                None
            } else {
                match custom {
                    None => Some(t1),
                    Some(c) => {
                        let q = extended_query(url_query(t1), c);
                        if url_room(encode_utf8(t1).len(), encode_utf8(q).len()) {
                            Some(text_after_set_query(t1, q))
                        } else {
                            None
                        }
                    },
                }
            }
        },
    }
}

proof fn lemma_pairs_fit_prefix(t: Seq<char>, pairs: Seq<(Seq<char>, Seq<char>)>, k: int)
    requires
        pairs_fit(t, pairs),
        0 <= k <= pairs.len(),
    ensures
        pairs_fit(t, pairs.subrange(0, k)),
    decreases pairs.len(),
{
    if k == pairs.len() {
        assert(pairs.subrange(0, k) =~= pairs);
    } else {
        lemma_pairs_fit_prefix(t, pairs.drop_last(), k);
        assert(pairs.drop_last().subrange(0, k) =~= pairs.subrange(0, k));
    }
}

fn url_bytes(u: &url::Url) -> (n: u128)
    ensures
        n == encode_utf8(url_text(*u)).len(),
{
    let t = url_as_text(u);
    utf8_len(t.as_str())
}

/// Builds the URL of an API request: the endpoint (see `endpoint_text`),
/// the query pairs of `query_pairs_spec` appended in order, and then the
/// configuration's raw custom query, if any, added by `extend_query` (see
/// `built_url_text`). It fails when the endpoint text is not a URL, with
/// the parser's refusal, or when the URL's offsets would pass 4 GiB, with
/// `UrlError::Overflow`.
pub fn build_url(
    api_base: &str,
    path: &str,
    params: &[(&str, &str)],
    cookie: Option<&str>,
    config: &DownloadConfig,
) -> (r: Result<url::Url, UrlError>)
    ensures
        r is Ok <==> built_url_text(api_base@, path@, params@, cookie, opt_text(config.query_params)) is Some,
        r matches Ok(u) ==> built_url_text(api_base@, path@, params@, cookie, opt_text(config.query_params))
            == Some(url_text(u)),
        parsed_url_text(endpoint_text(api_base@, path@)) is None ==> r == Err::<url::Url, UrlError>(
            url_parse_error(endpoint_text(api_base@, path@)),
        ),
        parsed_url_text(endpoint_text(api_base@, path@)) is Some && r is Err ==> r == Err::<url::Url, UrlError>(
            UrlError::Overflow,
        ),
{
    let endpoint = endpoint_url_text(api_base, path);
    let mut url = match parse_url(endpoint.as_str()) {
        Ok(u) => u,
        Err(e) => {
            return Err(e);
        },
    };
    let ghost t0 = url_text(url);
    let pairs = query_pairs(params, cookie);
    let ghost pv = pairs_view(pairs@);
    let mut i: usize = 0;
    while i < pairs.len()
        invariant
            i <= pairs@.len(),
            pv == pairs_view(pairs@),
            pv.len() == pairs@.len(),
            pv == query_pairs_spec(params@, cookie),
            parsed_url_text(endpoint_text(api_base@, path@)) == Some(t0),
            url_text(url) == pairs_appended(t0, pv.subrange(0, i as int)),
            pairs_fit(t0, pv.subrange(0, i as int)),
        decreases pairs.len() - i,
    {
        let key = pairs[i].0.as_str();
        let value = pairs[i].1.as_str();
        let n = url_bytes(&url);
        let k = utf8_len(key);
        let v = utf8_len(value);
        let ghost pre = pv.subrange(0, i as int);
        let ghost post = pv.subrange(0, i + 1);
        proof {
            assert(post.drop_last() =~= pre);
            assert(post.last() == (key@, value@));
        }
        if n > 0xffff_ffffu128 || k > 0xffff_ffffu128 || v > 0xffff_ffffu128 || n + 3 * (k + v) + 3
            > 0xffff_ffffu128 {
            proof {
                if pairs_fit(t0, pv) {
                    lemma_pairs_fit_prefix(t0, pv, i + 1);
                }
            }
            return Err(UrlError::Overflow);
        }
        append_query_pair(&mut url, key, value);
        i = i + 1;
    }
    proof {
        assert(pv.subrange(0, pv.len() as int) =~= pv);
    }
    match &config.query_params {
        Some(custom) => {
            let current = current_query(&url);
            let q = extend_query(current, custom.as_str());
            let n = url_bytes(&url);
            let m = utf8_len(q.as_str());
            if n > 0xffff_ffffu128 || m > 0xffff_ffffu128 || n + 3 * m + 3 > 0xffff_ffffu128 {
                return Err(UrlError::Overflow);
            }
            replace_query(&mut url, q.as_str());
        },
        None => {},
    }
    Ok(url)
}

} // verus!
