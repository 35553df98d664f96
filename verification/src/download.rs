//! Which songs a session downloads, and the per-song download procedure as
//! a state machine: the program performs each action it returns (requests,
//! file work, waiting) and hands the outcome back as the next event.

use vstd::prelude::*;
use std::collections::{HashMap, HashSet};
use crate::api::{SongDetail, SongUrlData};
use crate::metadata::{
    CoverArt, TagPlan, cover_mime, cover_mime_spec, tag_plan, edits_view, planned_edits,
    is_release_date_of, opt_text, cover_view, artist_names, TagEditView, lemma_plan_describes_song,
};
use crate::text::{
    chars_of, string_of, append_str, push_decimal, decimal, join_path,
    join_path_chars, to_lowercase, lowercase,
};
use crate::utils::{sanitize_filename, sanitized_name, lemma_sanitized_name_is_safe};

verus! {

/// Whether a resolved song list holds `id` (`None` stands for a list that
/// could not be fetched).
pub open spec fn list_has(list: Option<Vec<u64>>, id: u64) -> bool {
    match list {
        Some(v) => v@.contains(id),
        None => false,
    }
}

/// Every ID that the resolved song lists hold.
pub open spec fn listed_song_ids(lists: Seq<Option<Vec<u64>>>) -> Set<u64> {
    Set::new(|id: u64| exists|i: int| 0 <= i < lists.len() && list_has(#[trigger] lists[i], id))
}

/// `acc` followed by the IDs of `ids` that are not in it yet, each once,
/// in order of first appearance.
pub open spec fn with_new_ids(acc: Seq<u64>, ids: Seq<u64>) -> Seq<u64>
    decreases ids.len(),
{
    if ids.len() == 0 {
        acc
    } else {
        let before = with_new_ids(acc, ids.drop_last());
        if before.contains(ids.last()) {
            before
        } else {
            before.push(ids.last())
        }
    }
}

/// The IDs of `ids`, each once, in order of first appearance.
pub open spec fn first_occurrences(ids: Seq<u64>) -> Seq<u64> {
    with_new_ids(Seq::empty(), ids)
}

/// The IDs of the lists that could be fetched, one list after another.
pub open spec fn listed_in_order(lists: Seq<Option<Vec<u64>>>) -> Seq<u64>
    decreases lists.len(),
{
    if lists.len() == 0 {
        Seq::empty()
    } else {
        listed_in_order(lists.drop_last()) + match lists.last() {
            Some(v) => v@,
            None => Seq::empty(),
        }
    }
}

proof fn lemma_with_new_ids_append(acc: Seq<u64>, a: Seq<u64>, b: Seq<u64>)
    ensures
        with_new_ids(acc, a + b) == with_new_ids(with_new_ids(acc, a), b),
    decreases b.len(),
{
    if b.len() == 0 {
        assert(a + b =~= a);
    } else {
        lemma_with_new_ids_append(acc, a, b.drop_last());
        assert((a + b).drop_last() =~= a + b.drop_last());
        assert((a + b).last() == b.last());
    }
}

/// Adds the IDs of `ids` that `acc` does not hold yet, in order; `seen`
/// holds the IDs of `acc`.
fn add_new_ids(acc: &mut Vec<u64>, seen: &mut HashSet<u64>, ids: &Vec<u64>)
    requires
        old(acc)@.no_duplicates(),
        old(seen)@ == old(acc)@.to_set(),
    ensures
        final(acc)@.no_duplicates(),
        final(seen)@ == final(acc)@.to_set(),
        final(acc)@.to_set() == old(acc)@.to_set() + ids@.to_set(),
        final(acc)@ == with_new_ids(old(acc)@, ids@),
{
    let ghost start = acc@;
    let mut i: usize = 0;
    while i < ids.len()
        invariant
            i <= ids@.len(),
            acc@.no_duplicates(),
            seen@ == acc@.to_set(),
            acc@.to_set() == start.to_set() + ids@.subrange(0, i as int).to_set(),
            acc@ == with_new_ids(start, ids@.subrange(0, i as int)),
        decreases ids.len() - i,
    {
        broadcast use vstd::std_specs::hash::group_hash_axioms;
        let id = ids[i];
        let found = seen.contains(&id);
        let ghost before = acc@;
        if !found {
            acc.push(id);
            seen.insert(id);
            assert(acc@.to_set() =~= before.to_set().insert(id)) by {
                assert forall|x: u64| acc@.to_set().contains(x) implies before.to_set().insert(id).contains(x) by {
                    let k = choose|k: int| 0 <= k < acc@.len() && #[trigger] acc@[k] == x;
                    if k < before.len() {
                        assert(before[k] == x);
                    }
                }
                assert forall|x: u64| before.to_set().insert(id).contains(x) implies acc@.to_set().contains(x) by {
                    if x == id {
                        assert(acc@[before.len() as int] == id);
                    } else {
                        let k = choose|k: int| 0 <= k < before.len() && #[trigger] before[k] == x;
                        assert(acc@[k] == x);
                    }
                }
            }
        } else {
            proof {
                assert(before.to_set().contains(id));
                let k = choose|k: int| 0 <= k < before.len() && #[trigger] before[k] == id;
                assert(before.contains(id));
            }
        }
        let ghost pre_ids = ids@.subrange(0, i as int);
        let ghost post_ids = ids@.subrange(0, i + 1);
        assert(post_ids =~= pre_ids.push(id));
        assert(post_ids.drop_last() =~= pre_ids);
        assert(found == before.contains(id));
        assert(acc@ == with_new_ids(start, post_ids));
        assert(post_ids.to_set() =~= pre_ids.to_set().insert(id)) by {
            assert forall|x: u64| post_ids.to_set().contains(x) implies pre_ids.to_set().insert(id).contains(x) by {
                let k = choose|k: int| 0 <= k < post_ids.len() && #[trigger] post_ids[k] == x;
                if k < i {
                    assert(pre_ids[k] == x);
                }
            }
            assert forall|x: u64| pre_ids.to_set().insert(id).contains(x) implies post_ids.to_set().contains(x) by {
                if x == id {
                    assert(post_ids[i as int] == id);
                } else {
                    let k = choose|k: int| 0 <= k < pre_ids.len() && #[trigger] pre_ids[k] == x;
                    assert(post_ids[k] == x);
                }
            }
        }
        assert(acc@.to_set() =~= start.to_set() + ids@.subrange(0, i + 1).to_set());
        i = i + 1;
    }
    assert(ids@.subrange(0, ids@.len() as int) =~= ids@);
}

fn add_listed_ids(acc: &mut Vec<u64>, seen: &mut HashSet<u64>, lists: &Vec<Option<Vec<u64>>>)
    requires
        old(acc)@.no_duplicates(),
        old(seen)@ == old(acc)@.to_set(),
    ensures
        final(acc)@.no_duplicates(),
        final(seen)@ == final(acc)@.to_set(),
        final(acc)@.to_set() == old(acc)@.to_set() + listed_song_ids(lists@),
        final(acc)@ == with_new_ids(old(acc)@, listed_in_order(lists@)),
{
    let ghost start = acc@;
    let mut i: usize = 0;
    while i < lists.len()
        invariant
            i <= lists@.len(),
            acc@.no_duplicates(),
            seen@ == acc@.to_set(),
            acc@.to_set() == start.to_set() + listed_song_ids(lists@.subrange(0, i as int)),
            acc@ == with_new_ids(start, listed_in_order(lists@.subrange(0, i as int))),
        decreases lists.len() - i,
    {
        let ghost before = acc@;
        let ghost pre_lists = lists@.subrange(0, i as int);
        let ghost post_lists = lists@.subrange(0, i + 1);
        proof {
            assert(post_lists.drop_last() =~= pre_lists);
            assert(post_lists.last() == lists@[i as int]);
        }
        match &lists[i] {
            Some(ids) => {
                add_new_ids(acc, seen, ids);
                proof {
                    lemma_with_new_ids_append(start, listed_in_order(pre_lists), ids@);
                }
            },
            None => {
                assert(listed_in_order(post_lists) =~= listed_in_order(pre_lists));
            },
        }
        assert(acc@.to_set() =~= start.to_set() + listed_song_ids(lists@.subrange(0, i + 1))) by {
            let pre = lists@.subrange(0, i as int);
            let post = lists@.subrange(0, i + 1);
            assert forall|x: u64| listed_song_ids(post).contains(x) implies (listed_song_ids(pre).contains(x) || list_has(lists@[i as int], x)) by {
                let k = choose|k: int| 0 <= k < post.len() && list_has(#[trigger] post[k], x);
                if k < i {
                    assert(pre[k] == post[k]);
                }
            }
            assert forall|x: u64| listed_song_ids(pre).contains(x) implies listed_song_ids(post).contains(x) by {
                let k = choose|k: int| 0 <= k < pre.len() && list_has(#[trigger] pre[k], x);
                assert(post[k] == pre[k]);
            }
            assert forall|x: u64| list_has(lists@[i as int], x) implies listed_song_ids(post).contains(x) by {
                assert(post[i as int] == lists@[i as int]);
            }
        }
        i = i + 1;
    }
    assert(lists@.subrange(0, lists@.len() as int) =~= lists@);
}

/// Gathers every target song ID of a session: the tracks, then the songs of
/// each album and of each playlist whose list could be fetched (`None` for
/// one that could not). Each ID is listed once, in order of first
/// appearance.
pub fn resolve_song_ids(
    tracks: &Vec<u64>,
    album_songs: &Vec<Option<Vec<u64>>>,
    playlist_songs: &Vec<Option<Vec<u64>>>,
) -> (r: Vec<u64>)
    ensures
        r@ == first_occurrences(tracks@ + listed_in_order(album_songs@) + listed_in_order(playlist_songs@)),
        r@.no_duplicates(),
        r@.to_set() == tracks@.to_set() + listed_song_ids(album_songs@) + listed_song_ids(
            playlist_songs@,
        ),
{
    let mut acc: Vec<u64> = Vec::new();
    let mut seen: HashSet<u64> = HashSet::new();
    assert(acc@.to_set() =~= Set::<u64>::empty());
    add_new_ids(&mut acc, &mut seen, tracks);
    add_listed_ids(&mut acc, &mut seen, album_songs);
    add_listed_ids(&mut acc, &mut seen, playlist_songs);
    proof {
        let e = Seq::<u64>::empty();
        lemma_with_new_ids_append(e, tracks@, listed_in_order(album_songs@));
        lemma_with_new_ids_append(e, tracks@ + listed_in_order(album_songs@), listed_in_order(playlist_songs@));
    }
    assert(acc@.to_set() =~= tracks@.to_set() + listed_song_ids(album_songs@) + listed_song_ids(
        playlist_songs@,
    ));
    acc
}

/// The target IDs that have no downloaded file yet, in order.
pub open spec fn missing_ids_spec(targets: Seq<u64>, downloaded: Map<u64, Seq<char>>) -> Seq<u64>
    decreases targets.len(),
{
    if targets.len() == 0 {
        Seq::empty()
    } else {
        let rest = missing_ids_spec(targets.drop_last(), downloaded);
        if downloaded.contains_key(targets.last()) {
            rest
        } else {
            rest.push(targets.last())
        }
    }
}

/// The target IDs that have no downloaded file in the session folder yet.
pub fn missing_song_ids(targets: &Vec<u64>, downloaded: &HashMap<u64, String>) -> (r: Vec<u64>)
    ensures
        r@ == missing_ids_spec(targets@, downloaded_keys_view(downloaded@)),
{
    broadcast use vstd::std_specs::hash::group_hash_axioms;
    let mut r: Vec<u64> = Vec::new();
    let mut i: usize = 0;
    while i < targets.len()
        invariant
            i <= targets@.len(),
            r@ == missing_ids_spec(targets@.subrange(0, i as int), downloaded_keys_view(downloaded@)),
        decreases targets.len() - i,
    {
        let id = targets[i];
        let ghost pre = targets@.subrange(0, i as int);
        assert(targets@.subrange(0, i + 1).drop_last() =~= pre);
        if !downloaded.contains_key(&id) {
            r.push(id);
        }
        i = i + 1;
    }
    assert(targets@.subrange(0, targets@.len() as int) =~= targets@);
    r
}

/// What a session does once its target songs are resolved.
pub enum SessionStart {
    /// No target song was resolved: the session stops with an error.
    NoTargets,
    /// Every target song already has a downloaded file: nothing is left to do.
    AllDownloaded,
    /// These target songs, in order, have no downloaded file yet.
    Download { missing: Vec<u64> },
}

/// Decides how a session goes on: an error without targets, done when no
/// target is missing, and else the missing targets to download (see
/// `missing_ids_spec`).
pub fn plan_session(targets: &Vec<u64>, downloaded: &HashMap<u64, String>) -> (r: SessionStart)
    ensures
        targets@.len() == 0 ==> r is NoTargets,
        targets@.len() > 0 && missing_ids_spec(targets@, downloaded_keys_view(downloaded@)).len() == 0
            ==> r is AllDownloaded,
        targets@.len() > 0 && missing_ids_spec(targets@, downloaded_keys_view(downloaded@)).len() > 0
            ==> (r matches SessionStart::Download { missing } && missing@ == missing_ids_spec(
            targets@,
            downloaded_keys_view(downloaded@),
        )),
{
    if targets.len() == 0 {
        return SessionStart::NoTargets;
    }
    let missing = missing_song_ids(targets, downloaded);
    if missing.len() == 0 {
        SessionStart::AllDownloaded
    } else {
        SessionStart::Download { missing }
    }
}

/// The IDs of `ids` that `known` holds, in order.
pub open spec fn ids_in(ids: Seq<u64>, known: Set<u64>) -> Seq<u64>
    decreases ids.len(),
{
    if ids.len() == 0 {
        Seq::empty()
    } else {
        let rest = ids_in(ids.drop_last(), known);
        if known.contains(ids.last()) {
            rest.push(ids.last())
        } else {
            rest
        }
    }
}

/// The songs to start downloading: the missing songs whose details could be
/// fetched, in order; a song without details is skipped.
pub fn songs_with_details(missing: &Vec<u64>, details: &HashMap<u64, SongDetail>) -> (r: Vec<u64>)
    ensures
        r@ == ids_in(missing@, details@.dom()),
{
    broadcast use vstd::std_specs::hash::group_hash_axioms;
    let mut r: Vec<u64> = Vec::new();
    let mut i: usize = 0;
    while i < missing.len()
        invariant
            i <= missing@.len(),
            r@ == ids_in(missing@.subrange(0, i as int), details@.dom()),
        decreases missing.len() - i,
    {
        let id = missing[i];
        assert(missing@.subrange(0, i + 1).drop_last() =~= missing@.subrange(0, i as int));
        if details.contains_key(&id) {
            r.push(id);
        }
        i = i + 1;
    }
    assert(missing@.subrange(0, missing@.len() as int) =~= missing@);
    r
}

/// The downloaded files by song ID, as plain text.
pub open spec fn downloaded_keys_view(m: Map<u64, String>) -> Map<u64, Seq<char>> {
    m.map_values(|p: String| p@)
}

/// The audio file extensions a session folder is scanned for.
pub open spec fn is_audio_extension_spec(ext: Seq<char>) -> bool {
    let e = lowercase(ext);
    e == "mp3"@ || e == "ogg"@ || e == "flac"@ || e == "wav"@
}

/// Whether a lower-case extension is one of `mp3`, `ogg`, `flac`, `wav`.
pub fn is_lowercase_audio_extension(e: &str) -> (r: bool)
    ensures
        r == (e@ == "mp3"@ || e@ == "ogg"@ || e@ == "flac"@ || e@ == "wav"@),
{
    let cs = chars_of(e);
    crate::text::chars_eq(&cs, &chars_of("mp3")) || crate::text::chars_eq(&cs, &chars_of("ogg"))
        || crate::text::chars_eq(&cs, &chars_of("flac")) || crate::text::chars_eq(
        &cs,
        &chars_of("wav"),
    )
}

/// Whether a file with this extension is a downloaded track worth reading
/// tags from: `mp3`, `ogg`, `flac` or `wav`, in any letter case.
pub fn is_audio_extension(ext: &str) -> (r: bool)
    ensures
        r == is_audio_extension_spec(ext@),
{
    let lower = to_lowercase(ext);
    is_lowercase_audio_extension(lower.as_str())
}

/// The texts of `parts` joined by `sep`.
pub open spec fn join_texts(parts: Seq<Seq<char>>, sep: Seq<char>) -> Seq<char>
    decreases parts.len(),
{
    if parts.len() == 0 {
        Seq::empty()
    } else if parts.len() == 1 {
        parts[0]
    } else {
        join_texts(parts.drop_last(), sep) + sep + parts.last()
    }
}

/// The name a song is shown and saved under: its artists joined by `, `,
/// a ` - `, and its title; just the title when that artist text is empty.
pub open spec fn display_name_spec(detail: SongDetail) -> Seq<char> {
    let artists = match detail.ar {
        Some(a) => join_texts(artist_names(a@), ", "@),
        None => Seq::empty(),
    };
    if artists.len() == 0 {
        detail.name@
    } else {
        artists + " - "@ + detail.name@
    }
}

/// Computes the name a song is shown and saved under (see
/// `display_name_spec`).
pub fn display_name(detail: &SongDetail) -> (r: String)
    ensures
        r@ == display_name_spec(*detail),
{
    let mut joined: Vec<char> = Vec::new();
    match &detail.ar {
        Some(a) => {
            let ghost names = artist_names(a@);
            let mut i: usize = 0;
            while i < a.len()
                invariant
                    i <= a@.len(),
                    names == artist_names(a@),
                    joined@ == join_texts(names.subrange(0, i as int), ", "@),
                decreases a.len() - i,
            {
                let ghost pre = names.subrange(0, i as int);
                let ghost post = names.subrange(0, i + 1);
                assert(post.drop_last() =~= pre);
                assert(post.last() == a@[i as int].name@);
                if i > 0 {
                    append_str(&mut joined, ", ");
                }
                append_str(&mut joined, a[i].name.as_str());
                i = i + 1;
                proof {
                    if pre.len() == 0 {
                        assert(joined@ =~= post[0]);
                    }
                }
            }
            assert(names.subrange(0, a@.len() as int) =~= names);
        },
        None => {},
    }
    if joined.len() == 0 {
        string_of(&chars_of(detail.name.as_str()))
    } else {
        append_str(&mut joined, " - ");
        append_str(&mut joined, detail.name.as_str());
        string_of(&joined)
    }
}

/// The download URL of a reply entry, when it has a non-empty one.
pub open spec fn usable_url(data: SongUrlData) -> Option<Seq<char>> {
    match data.url {
        Some(u) => if u@.len() > 0 { Some(u@) } else { None },
        None => None,
    }
}

/// The file extension of a download: the reply's file type, or `mp3` when it
/// gives none, in lower case.
pub open spec fn extension_spec(data: SongUrlData) -> Seq<char> {
    match data.file_type {
        Some(t) => lowercase(t@),
        None => lowercase("mp3"@),
    }
}

/// The name of the file a song is downloaded into: `<id>.<ext>.tmp`.
pub open spec fn temp_file_name(id: u64, ext: Seq<char>) -> Seq<char> {
    decimal(id as nat) + "."@ + ext + ".tmp"@
}

/// The name a song is saved under: `<name>.<ext>`.
pub open spec fn plain_file_name(base: Seq<char>, ext: Seq<char>) -> Seq<char> {
    base + "."@ + ext
}

/// The name a song is saved under when another song already has the plain
/// name: `<name> [<id>].<ext>`.
pub open spec fn id_file_name(base: Seq<char>, id: u64, ext: Seq<char>) -> Seq<char> {
    base + " ["@ + decimal(id as nat) + "]."@ + ext
}

/// The name of the file a song is downloaded into (see `temp_file_name`).
pub fn temp_file_name_of(id: u64, ext: &str) -> (r: String)
    ensures
        r@ == temp_file_name(id, ext@),
{
    let mut cs: Vec<char> = Vec::new();
    push_decimal(id, &mut cs);
    append_str(&mut cs, ".");
    append_str(&mut cs, ext);
    append_str(&mut cs, ".tmp");
    string_of(&cs)
}

/// The name a song is saved under (see `plain_file_name`).
pub fn plain_file_name_of(base: &str, ext: &str) -> (r: String)
    ensures
        r@ == plain_file_name(base@, ext@),
{
    let mut cs = chars_of(base);
    append_str(&mut cs, ".");
    append_str(&mut cs, ext);
    string_of(&cs)
}

/// The name a song is saved under when the plain name belongs to another
/// song (see `id_file_name`).
pub fn id_file_name_of(base: &str, id: u64, ext: &str) -> (r: String)
    ensures
        r@ == id_file_name(base@, id, ext@),
{
    let mut cs = chars_of(base);
    append_str(&mut cs, " [");
    push_decimal(id, &mut cs);
    append_str(&mut cs, "].");
    append_str(&mut cs, ext);
    string_of(&cs)
}

/// `name` in the folder `dir` (see `join_path`).
pub fn path_in(dir: &str, name: &str) -> (r: String)
    ensures
        r@ == join_path(dir@, name@),
{
    string_of(&join_path_chars(&chars_of(dir), &chars_of(name)))
}

/// Why a download attempt failed before the file was complete.
pub enum DownloadFailure {
    /// The download URL could not be reached, or did not answer with success.
    Connect,
    /// The temporary file could not be created (the I/O error text).
    CreateTemp(String),
    /// Writing the temporary file failed (the I/O error text).
    Write(String),
    /// The response body broke off before its end (the error text): what
    /// was written is incomplete.
    Stream(String),
}

/// What the program hands back after performing an action.
pub enum SongEvent {
    /// The job is started.
    Start,
    /// The `song/url` reply's first entry, or `None` when the request failed
    /// or the reply had no entry.
    UrlResult(Option<SongUrlData>),
    /// The song ID recorded in the file that already has the chosen name, if
    /// such a file exists and records one.
    ExistingId(Option<u64>),
    /// The outcome of downloading into the temporary file.
    DownloadResult(Result<(), DownloadFailure>),
    /// The temporary file was removed (or could not be).
    TempRemoved,
    /// The lyric, if it could be fetched.
    LyricResult(Option<String>),
    /// The cover bytes and the response's `Content-Type`, if the cover could
    /// be fetched.
    CoverResult(Option<(Vec<u8>, Option<String>)>),
    /// The tags were written (a failure there is only a warning).
    TagsWritten,
    /// The outcome of moving the temporary file to its final name.
    RenameResult(Result<(), String>),
    /// The pause before a retry is over.
    WaitOver,
}

/// How a song's download ended.
pub enum SongReport {
    /// Saved under this file name.
    Saved { file_name: String },
    /// The song is restricted or unavailable: no usable URL, never retried.
    Restricted { display_name: String },
    /// Every attempt failed; the reason of the last one.
    Failed { display_name: String, details: String },
}

/// What the program is asked to do next for a song.
pub enum SongAction {
    /// Ask `song/url` for the download URL (this is attempt `attempt`).
    FetchUrl { attempt: u32 },
    /// Read the song ID recorded in the file at `path`, if it exists.
    CheckExisting { path: String },
    /// Download `url` into the temporary file `temp_path`.
    Download { url: String, temp_path: String },
    /// Remove the temporary file.
    RemoveTemp { path: String },
    /// Fetch the lyric.
    FetchLyric,
    /// Fetch the cover image.
    FetchCover { url: String },
    /// Apply the tag edits to the file at `path`.
    WriteTags { path: String, plan: TagPlan },
    /// Move the temporary file to its final path.
    Rename { from: String, to: String },
    /// Pause for `millis` milliseconds before attempt `next_attempt`.
    Wait { millis: u64, next_attempt: u32 },
    /// The song is done.
    Finish(SongReport),
    /// The event did not fit the job's phase: nothing to do.
    Nothing,
}

/// Where a song's download stands.
#[derive(Clone, Copy, Debug, PartialEq, Eq)]
pub enum Phase {
    Ready,
    FetchingUrl,
    CheckingName,
    Downloading,
    Discarding,
    FetchingLyric,
    FetchingCover,
    Embedding,
    Finalizing,
    Waiting,
    Finished,
}

/// What stays fixed for a song's whole download.
pub struct SongContext {
    pub song_id: u64,
    pub detail: SongDetail,
    pub display_name: String,
    pub session_dir: String,
    pub no_metadata: bool,
    pub no_cover: bool,
}

/// The URL and file names of the current attempt.
pub struct AttemptFiles {
    pub url: String,
    pub ext: String,
    pub base_name: String,
    pub temp_path: String,
    pub final_name: String,
    pub final_path: String,
}

/// One song's download: its fixed context, the phase, the attempt number
/// (1 to 4: the first try and three retries), the reason of the last
/// failure, the current attempt's files, and the lyric and cover gathered
/// for its tags.
pub struct SongJob {
    pub ctx: SongContext,
    pub phase: Phase,
    pub attempt: u32,
    pub error_details: String,
    pub files: AttemptFiles,
    pub lyric: Option<String>,
    pub cover: Option<CoverArt>,
}

/// The most attempts a song gets: the first try and three retries.
pub const MAX_ATTEMPTS: u32 = 4;

/// The pause before the first retry, in milliseconds.
pub const RETRY_DELAY_MILLIS: u64 = 1000;

/// The pause after failed attempt `failed_attempt` (counted from 1), in
/// milliseconds: the first pause, doubled after each further failure.
pub open spec fn retry_delay(failed_attempt: nat) -> nat
    decreases failed_attempt,
{
    if failed_attempt <= 1 {
        RETRY_DELAY_MILLIS as nat
    } else {
        2 * retry_delay((failed_attempt - 1) as nat)
    }
}

fn retry_delay_millis(failed_attempt: u32) -> (r: u64)
    requires
        1 <= failed_attempt < MAX_ATTEMPTS,
    ensures
        r == retry_delay(failed_attempt as nat),
{
    proof {
        reveal_with_fuel(retry_delay, 3);
    }
    if failed_attempt == 1 {
        RETRY_DELAY_MILLIS
    } else if failed_attempt == 2 {
        2 * RETRY_DELAY_MILLIS
    } else {
        4 * RETRY_DELAY_MILLIS
    }
}

impl SongJob {
    /// The job's invariant: no attempt before the start, between 1 and 4
    /// after it, and a pause only before another attempt.
    pub open spec fn wf(self) -> bool {
        &&& (self.phase == Phase::Ready <==> self.attempt == 0)
        &&& self.attempt <= MAX_ATTEMPTS
        &&& (self.phase == Phase::Waiting ==> self.attempt < MAX_ATTEMPTS)
    }
}

/// The cover URL of a song, when covers are wanted and its album has one.
pub open spec fn cover_url_spec(ctx: SongContext) -> Option<Seq<char>> {
    if ctx.no_cover {
        None
    } else {
        match ctx.detail.al {
            Some(al) => match al.pic_url {
                Some(u) => Some(u@),
                None => None,
            },
            None => None,
        }
    }
}

/// Whether `plan` holds the edits for the song with this lyric and cover.
pub open spec fn is_plan_for(ctx: SongContext, lyric: Option<String>, cover: Option<CoverArt>, plan: TagPlan) -> bool {
    exists|date: Option<(i32, u32, u32)>|
        is_release_date_of(ctx.detail.publish_time, date) && edits_view(plan.edits@) == planned_edits(
            ctx.detail,
            opt_text(lyric),
            cover_view(cover),
            ctx.no_metadata,
            date,
        )
}

/// After a failed attempt with reason `details`: a pause, growing with each
/// failure, before the next attempt, or the end with a failure report after
/// the fourth.
pub open spec fn failed_step(job: SongJob, details: Seq<char>, next: SongJob, act: SongAction) -> bool {
    &&& next.error_details@ == details
    &&& next.files == job.files
    &&& next.lyric == job.lyric
    &&& next.cover == job.cover
    &&& next.attempt == job.attempt
    &&& if job.attempt < MAX_ATTEMPTS {
        &&& next.phase == Phase::Waiting
        &&& act == SongAction::Wait {
            millis: retry_delay(job.attempt as nat) as u64,
            next_attempt: (job.attempt + 1) as u32,
        }
    } else {
        &&& next.phase == Phase::Finished
        &&& act matches SongAction::Finish(SongReport::Failed { display_name, details: d })
        &&& display_name@ == job.ctx.display_name@
        &&& d@ == details
    }
}

/// After the lyric stage: fetch the cover when one is wanted, or else write
/// the tags.
pub open spec fn cover_stage(job: SongJob, lyric: Option<String>, next: SongJob, act: SongAction) -> bool {
    &&& next.attempt == job.attempt
    &&& next.error_details == job.error_details
    &&& next.files == job.files
    &&& match cover_url_spec(job.ctx) {
        Some(u) => {
            &&& next.phase == Phase::FetchingCover
            &&& next.lyric == lyric
            &&& next.cover == job.cover
            &&& act matches SongAction::FetchCover { url }
            &&& url@ == u
        },
        None => {
            &&& next.phase == Phase::Embedding
            &&& next.lyric is None
            &&& next.cover is None
            &&& act matches SongAction::WriteTags { path, plan }
            &&& path@ == job.files.temp_path@
            &&& is_plan_for(job.ctx, lyric, None, plan)
        },
    }
}

/// The job and action after `job` receives `ev`.
pub open spec fn step_spec(job: SongJob, ev: SongEvent, next: SongJob, act: SongAction) -> bool {
    &&& next.wf()
    &&& next.ctx == job.ctx
    &&& match (job.phase, ev) {
        (Phase::Ready, SongEvent::Start) => {
            &&& next.phase == Phase::FetchingUrl
            &&& next.attempt == 1
            &&& next.error_details == job.error_details
            &&& next.files == job.files
            &&& next.lyric == job.lyric
            &&& next.cover == job.cover
            &&& act == SongAction::FetchUrl { attempt: 1 }
        },
        (Phase::FetchingUrl, SongEvent::UrlResult(None)) => failed_step(
            job,
            "Failed to fetch download URL"@,
            next,
            act,
        ),
        (Phase::FetchingUrl, SongEvent::UrlResult(Some(data))) => match usable_url(data) {
            None => {
                &&& next.phase == Phase::Finished
                &&& next.attempt == job.attempt
                &&& next.error_details@ == "Restricted/unavailable"@
                &&& next.files == job.files
                &&& next.lyric == job.lyric
                &&& next.cover == job.cover
                &&& act matches SongAction::Finish(SongReport::Restricted { display_name })
                &&& display_name@ == job.ctx.display_name@
            },
            Some(u) => {
                let ext = extension_spec(data);
                let base = sanitized_name(job.ctx.display_name@);
                &&& next.phase == Phase::CheckingName
                &&& next.attempt == job.attempt
                &&& next.error_details == job.error_details
                &&& next.files.url@ == u
                &&& next.files.ext@ == ext
                &&& next.files.base_name@ == base
                &&& next.files.temp_path@ == join_path(job.ctx.session_dir@, temp_file_name(job.ctx.song_id, ext))
                &&& next.files.final_name@ == plain_file_name(base, ext)
                &&& next.files.final_path@ == join_path(job.ctx.session_dir@, plain_file_name(base, ext))
                &&& next.lyric is None
                &&& next.cover is None
                &&& act matches SongAction::CheckExisting { path }
                &&& path@ == next.files.final_path@
            },
        },
        (Phase::CheckingName, SongEvent::ExistingId(existing)) => {
            &&& next.phase == Phase::Downloading
            &&& next.attempt == job.attempt
            &&& next.error_details == job.error_details
            &&& next.files.url == job.files.url
            &&& next.files.ext == job.files.ext
            &&& next.files.base_name == job.files.base_name
            &&& next.files.temp_path == job.files.temp_path
            &&& (if existing matches Some(other) && other != job.ctx.song_id {
                let name = id_file_name(job.files.base_name@, job.ctx.song_id, job.files.ext@);
                &&& next.files.final_name@ == name
                &&& next.files.final_path@ == join_path(job.ctx.session_dir@, name)
            } else {
                &&& next.files.final_name == job.files.final_name
                &&& next.files.final_path == job.files.final_path
            })
            &&& next.lyric == job.lyric
            &&& next.cover == job.cover
            &&& act matches SongAction::Download { url, temp_path }
            &&& url@ == job.files.url@
            &&& temp_path@ == job.files.temp_path@
        },
        (Phase::Downloading, SongEvent::DownloadResult(Err(DownloadFailure::Connect))) => failed_step(
            job,
            "Failed to connect to download URL"@,
            next,
            act,
        ),
        (Phase::Downloading, SongEvent::DownloadResult(Err(DownloadFailure::CreateTemp(e)))) => failed_step(
            job,
            "Failed to create temp file: "@ + e@,
            next,
            act,
        ),
        (Phase::Downloading, SongEvent::DownloadResult(Err(DownloadFailure::Write(e)))) => {
            &&& next.phase == Phase::Discarding
            &&& next.attempt == job.attempt
            &&& next.error_details@ == "Write error: "@ + e@
            &&& next.files == job.files
            &&& next.lyric == job.lyric
            &&& next.cover == job.cover
            &&& act matches SongAction::RemoveTemp { path }
            &&& path@ == job.files.temp_path@
        },
        (Phase::Downloading, SongEvent::DownloadResult(Err(DownloadFailure::Stream(e)))) => {
            &&& next.phase == Phase::Discarding
            &&& next.attempt == job.attempt
            &&& next.error_details@ == "Download interrupted: "@ + e@
            &&& next.files == job.files
            &&& next.lyric == job.lyric
            &&& next.cover == job.cover
            &&& act matches SongAction::RemoveTemp { path }
            &&& path@ == job.files.temp_path@
        },
        (Phase::Downloading, SongEvent::DownloadResult(Ok(()))) => if job.ctx.no_metadata {
            cover_stage(job, None, next, act)
        } else {
            &&& next.phase == Phase::FetchingLyric
            &&& next.attempt == job.attempt
            &&& next.error_details == job.error_details
            &&& next.files == job.files
            &&& next.lyric == job.lyric
            &&& next.cover == job.cover
            &&& act == SongAction::FetchLyric
        },
        (Phase::FetchingLyric, SongEvent::LyricResult(lyric)) => cover_stage(job, lyric, next, act),
        (Phase::FetchingCover, SongEvent::CoverResult(fetched)) => {
            let cover = match fetched {
                Some((bytes, content_type)) => Some(CoverArt {
                    bytes,
                    mime: cover_mime_spec(opt_text(content_type)),
                }),
                None => None,
            };
            &&& next.phase == Phase::Embedding
            &&& next.attempt == job.attempt
            &&& next.error_details == job.error_details
            &&& next.files == job.files
            &&& next.lyric is None
            &&& next.cover is None
            &&& act matches SongAction::WriteTags { path, plan }
            &&& path@ == job.files.temp_path@
            &&& is_plan_for(job.ctx, job.lyric, cover, plan)
        },
        (Phase::Embedding, SongEvent::TagsWritten) => {
            &&& next.phase == Phase::Finalizing
            &&& next.attempt == job.attempt
            &&& next.error_details == job.error_details
            &&& next.files == job.files
            &&& next.lyric == job.lyric
            &&& next.cover == job.cover
            &&& act matches SongAction::Rename { from, to }
            &&& from@ == job.files.temp_path@
            &&& to@ == job.files.final_path@
        },
        (Phase::Finalizing, SongEvent::RenameResult(Ok(()))) => {
            &&& next.phase == Phase::Finished
            &&& next.attempt == job.attempt
            &&& next.error_details == job.error_details
            &&& next.files == job.files
            &&& next.lyric == job.lyric
            &&& next.cover == job.cover
            &&& act matches SongAction::Finish(SongReport::Saved { file_name })
            &&& file_name@ == job.files.final_name@
        },
        (Phase::Finalizing, SongEvent::RenameResult(Err(e))) => {
            &&& next.phase == Phase::Discarding
            &&& next.attempt == job.attempt
            &&& next.error_details@ == "Failed to save final file: "@ + e@
            &&& next.files == job.files
            &&& next.lyric == job.lyric
            &&& next.cover == job.cover
            &&& act matches SongAction::RemoveTemp { path }
            &&& path@ == job.files.temp_path@
        },
        (Phase::Discarding, SongEvent::TempRemoved) => failed_step(job, job.error_details@, next, act),
        (Phase::Waiting, SongEvent::WaitOver) => {
            &&& next.phase == Phase::FetchingUrl
            &&& next.attempt == job.attempt + 1
            &&& next.error_details == job.error_details
            &&& next.files == job.files
            &&& next.lyric == job.lyric
            &&& next.cover == job.cover
            &&& act == SongAction::FetchUrl { attempt: (job.attempt + 1) as u32 }
        },
        _ => next == job && act == SongAction::Nothing,
    }
}


fn concat_str(a: &str, b: &str) -> (r: String)
    ensures
        r@ == a@ + b@,
{
    let mut cs = chars_of(a);
    append_str(&mut cs, b);
    string_of(&cs)
}

/// The files of a job before its first attempt: every text is empty.
pub open spec fn no_files(f: AttemptFiles) -> bool {
    &&& f.url@.len() == 0
    &&& f.ext@.len() == 0
    &&& f.base_name@.len() == 0
    &&& f.temp_path@.len() == 0
    &&& f.final_name@.len() == 0
    &&& f.final_path@.len() == 0
}

fn empty_files() -> (r: AttemptFiles)
    ensures
        no_files(r),
{
    AttemptFiles {
        url: String::new(),
        ext: String::new(),
        base_name: String::new(),
        temp_path: String::new(),
        final_name: String::new(),
        final_path: String::new(),
    }
}

impl SongJob {
    /// A fresh job for a song, to be saved in `session_dir`.
    pub fn new(detail: SongDetail, session_dir: String, no_metadata: bool, no_cover: bool) -> (r: SongJob)
        ensures
            r.wf(),
            r.phase == Phase::Ready,
            r.ctx.song_id == detail.id,
            r.ctx.detail == detail,
            r.ctx.display_name@ == display_name_spec(detail),
            r.ctx.session_dir == session_dir,
            r.ctx.no_metadata == no_metadata,
            r.ctx.no_cover == no_cover,
            r.error_details@.len() == 0,
            no_files(r.files),
            r.lyric is None,
            r.cover is None,
    {
        let name = display_name(&detail);
        SongJob {
            ctx: SongContext {
                song_id: detail.id,
                detail,
                display_name: name,
                session_dir,
                no_metadata,
                no_cover,
            },
            phase: Phase::Ready,
            attempt: 0,
            error_details: String::new(),
            files: empty_files(),
            lyric: None,
            cover: None,
        }
    }

    fn fail(self, details: String) -> (r: (SongJob, SongAction))
        requires
            self.wf(),
            self.attempt >= 1,
        ensures
            failed_step(self, details@, r.0, r.1),
            r.0.wf(),
            r.0.ctx == self.ctx,
    {
        if self.attempt < MAX_ATTEMPTS {
            let next_attempt = self.attempt + 1;
            let millis = retry_delay_millis(self.attempt);
            (
                SongJob { phase: Phase::Waiting, error_details: details, ..self },
                SongAction::Wait { millis, next_attempt },
            )
        } else {
            let report = SongReport::Failed {
                display_name: self.ctx.display_name.clone(),
                details: details.clone(),
            };
            (SongJob { phase: Phase::Finished, error_details: details, ..self }, SongAction::Finish(report))
        }
    }

    fn cover_stage(self, lyric: Option<String>) -> (r: (SongJob, SongAction))
        requires
            self.wf(),
            self.attempt >= 1,
        ensures
            cover_stage(self, lyric, r.0, r.1),
            r.0.wf(),
            r.0.ctx == self.ctx,
    {
        let wanted: Option<String> = if self.ctx.no_cover {
            None
        } else {
            match &self.ctx.detail.al {
                Some(al) => match &al.pic_url {
                    Some(u) => Some(u.clone()),
                    None => None,
                },
                None => None,
            }
        };
        match wanted {
            Some(url) => (
                SongJob { phase: Phase::FetchingCover, lyric, ..self },
                SongAction::FetchCover { url },
            ),
            None => {
                let plan = tag_plan(&self.ctx.detail, lyric, None, self.ctx.no_metadata);
                let path = self.files.temp_path.clone();
                (
                    SongJob { phase: Phase::Embedding, lyric: None, cover: None, ..self },
                    SongAction::WriteTags { path, plan },
                )
            },
        }
    }

    fn unchanged(self) -> (r: (SongJob, SongAction))
        ensures
            r.0 == self,
            r.1 == SongAction::Nothing,
    {
        (self, SongAction::Nothing)
    }

    /// Advances the job by one event and returns the next action (see
    /// `step_spec`). Every failure before the file is saved leads to a pause
    /// (doubled after each failure) and another attempt, up to four attempts
    /// (three retries); a song without a usable download URL ends at once as
    /// restricted.
    pub fn step(self, event: SongEvent) -> (r: (SongJob, SongAction))
        requires
            self.wf(),
        ensures
            step_spec(self, event, r.0, r.1),
    {
        match event {
            SongEvent::Start => match self.phase {
                Phase::Ready => (
                    SongJob { phase: Phase::FetchingUrl, attempt: 1, ..self },
                    SongAction::FetchUrl { attempt: 1 },
                ),
                _ => self.unchanged(),
            },
            SongEvent::UrlResult(data) => match self.phase {
                Phase::FetchingUrl => match data {
                    None => self.fail(string_of(&chars_of("Failed to fetch download URL"))),
                    Some(d) => self.url_received(d),
                },
                _ => self.unchanged(),
            },
            SongEvent::ExistingId(existing) => match self.phase {
                Phase::CheckingName => self.name_checked(existing),
                _ => self.unchanged(),
            },
            SongEvent::DownloadResult(res) => match self.phase {
                Phase::Downloading => match res {
                    Err(DownloadFailure::Connect) => self.fail(
                        string_of(&chars_of("Failed to connect to download URL")),
                    ),
                    Err(DownloadFailure::CreateTemp(e)) => self.fail(
                        concat_str("Failed to create temp file: ", e.as_str()),
                    ),
                    Err(DownloadFailure::Write(e)) => {
                        let details = concat_str("Write error: ", e.as_str());
                        let path = self.files.temp_path.clone();
                        (
                            SongJob { phase: Phase::Discarding, error_details: details, ..self },
                            SongAction::RemoveTemp { path },
                        )
                    },
                    Err(DownloadFailure::Stream(e)) => {
                        let details = concat_str("Download interrupted: ", e.as_str());
                        let path = self.files.temp_path.clone();
                        (
                            SongJob { phase: Phase::Discarding, error_details: details, ..self },
                            SongAction::RemoveTemp { path },
                        )
                    },
                    Ok(()) => {
                        if self.ctx.no_metadata {
                            self.cover_stage(None)
                        } else {
                            (SongJob { phase: Phase::FetchingLyric, ..self }, SongAction::FetchLyric)
                        }
                    },
                },
                _ => self.unchanged(),
            },
            SongEvent::TempRemoved => match self.phase {
                Phase::Discarding => {
                    let details = self.error_details.clone();
                    self.fail(details)
                },
                _ => self.unchanged(),
            },
            SongEvent::LyricResult(lyric) => match self.phase {
                Phase::FetchingLyric => self.cover_stage(lyric),
                _ => self.unchanged(),
            },
            SongEvent::CoverResult(fetched) => match self.phase {
                Phase::FetchingCover => {
                    let cover = match fetched {
                        Some((bytes, content_type)) => {
                            let mime = match &content_type {
                                Some(t) => cover_mime(Some(t.as_str())),
                                None => cover_mime(None),
                            };
                            Some(CoverArt { bytes, mime })
                        },
                        None => None,
                    };
                    let mut job = self;
                    let lyric = job.lyric.take();
                    let plan = tag_plan(&job.ctx.detail, lyric, cover, job.ctx.no_metadata);
                    let path = job.files.temp_path.clone();
                    (
                        SongJob { phase: Phase::Embedding, lyric: None, cover: None, ..job },
                        SongAction::WriteTags { path, plan },
                    )
                },
                _ => self.unchanged(),
            },
            SongEvent::TagsWritten => match self.phase {
                Phase::Embedding => {
                    let from = self.files.temp_path.clone();
                    let to = self.files.final_path.clone();
                    (SongJob { phase: Phase::Finalizing, ..self }, SongAction::Rename { from, to })
                },
                _ => self.unchanged(),
            },
            SongEvent::RenameResult(res) => match self.phase {
                Phase::Finalizing => match res {
                    Ok(()) => {
                        let file_name = self.files.final_name.clone();
                        (
                            SongJob { phase: Phase::Finished, ..self },
                            SongAction::Finish(SongReport::Saved { file_name }),
                        )
                    },
                    Err(e) => {
                        let details = concat_str("Failed to save final file: ", e.as_str());
                        let path = self.files.temp_path.clone();
                        (
                            SongJob { phase: Phase::Discarding, error_details: details, ..self },
                            SongAction::RemoveTemp { path },
                        )
                    },
                },
                _ => self.unchanged(),
            },
            SongEvent::WaitOver => match self.phase {
                Phase::Waiting => {
                    let next_attempt = self.attempt + 1;
                    (
                        SongJob { phase: Phase::FetchingUrl, attempt: next_attempt, ..self },
                        SongAction::FetchUrl { attempt: next_attempt },
                    )
                },
                _ => self.unchanged(),
            },
        }
    }

    fn url_received(self, data: SongUrlData) -> (r: (SongJob, SongAction))
        requires
            self.wf(),
            self.phase == Phase::FetchingUrl,
        ensures
            step_spec(self, SongEvent::UrlResult(Some(data)), r.0, r.1),
    {
        let usable: Option<String> = match &data.url {
            Some(u) => if !u.as_str().is_empty() {
                Some(u.clone())
            } else {
                None
            },
            None => None,
        };
        match usable {
            None => {
                let report = SongReport::Restricted { display_name: self.ctx.display_name.clone() };
                (
                    SongJob {
                        phase: Phase::Finished,
                        error_details: string_of(&chars_of("Restricted/unavailable")),
                        ..self
                    },
                    SongAction::Finish(report),
                )
            },
            Some(url) => {
                let ext = match &data.file_type {
                    Some(t) => to_lowercase(t.as_str()),
                    None => to_lowercase("mp3"),
                };
                let base = sanitize_filename(self.ctx.display_name.as_str());
                let temp_name = temp_file_name_of(self.ctx.song_id, ext.as_str());
                let final_name = plain_file_name_of(base.as_str(), ext.as_str());
                let temp_path = path_in(self.ctx.session_dir.as_str(), temp_name.as_str());
                let final_path = path_in(self.ctx.session_dir.as_str(), final_name.as_str());
                let files = AttemptFiles { url, ext, base_name: base, temp_path, final_name, final_path };
                let path = files.final_path.clone();
                (
                    SongJob { phase: Phase::CheckingName, files, lyric: None, cover: None, ..self },
                    SongAction::CheckExisting { path },
                )
            },
        }
    }

    fn name_checked(self, existing: Option<u64>) -> (r: (SongJob, SongAction))
        requires
            self.wf(),
            self.phase == Phase::CheckingName,
        ensures
            step_spec(self, SongEvent::ExistingId(existing), r.0, r.1),
    {
        let clash = match existing {
            Some(other) => other != self.ctx.song_id,
            None => false,
        };
        let url = self.files.url.clone();
        let temp_path = self.files.temp_path.clone();
        if clash {
            let name = id_file_name_of(self.files.base_name.as_str(), self.ctx.song_id, self.files.ext.as_str());
            let path = path_in(self.ctx.session_dir.as_str(), name.as_str());
            let files = AttemptFiles { final_name: name, final_path: path, ..self.files };
            (
                SongJob { phase: Phase::Downloading, files, ..self },
                SongAction::Download { url, temp_path },
            )
        } else {
            (SongJob { phase: Phase::Downloading, ..self }, SongAction::Download { url, temp_path })
        }
    }
}


/// Whether `jobs`, `events` and `actions` are a run of the download state
/// machine: each job is the one before it after that event, with that
/// action.
pub open spec fn is_run(jobs: Seq<SongJob>, events: Seq<SongEvent>, actions: Seq<SongAction>) -> bool {
    &&& jobs.len() == events.len() + 1
    &&& actions.len() == events.len()
    &&& forall|i: int| 0 <= i < events.len() ==> step_spec(#[trigger] jobs[i], events[i], jobs[i + 1], actions[i])
}

/// How many times `actions` asks for the download URL.
pub open spec fn url_fetches(actions: Seq<SongAction>) -> nat
    decreases actions.len(),
{
    if actions.len() == 0 {
        0
    } else {
        url_fetches(actions.drop_last()) + if actions.last() is FetchUrl { 1nat } else { 0nat }
    }
}

proof fn lemma_step_counts_attempts(job: SongJob, ev: SongEvent, next: SongJob, act: SongAction)
    requires
        job.wf(),
        step_spec(job, ev, next, act),
    ensures
        act is FetchUrl ==> next.attempt == job.attempt + 1,
        !(act is FetchUrl) ==> next.attempt == job.attempt,
{
}

/// A song's download URL is asked for at most four times (the first try and
/// three retries), however the requests and file operations turn out.
pub proof fn lemma_at_most_four_attempts(jobs: Seq<SongJob>, events: Seq<SongEvent>, actions: Seq<SongAction>)
    requires
        is_run(jobs, events, actions),
        jobs[0].wf(),
        jobs[0].phase == Phase::Ready,
    ensures
        url_fetches(actions) <= 4,
{
    let n = events.len() as int;
    assert forall|k: int| 0 <= k <= n implies url_fetches(#[trigger] actions.subrange(0, k)) == jobs[k].attempt
        && jobs[k].wf() by {
        lemma_fetches_prefix(jobs, events, actions, k);
    }
    assert(actions.subrange(0, n) =~= actions);
    assert(url_fetches(actions.subrange(0, n)) == jobs[n].attempt);
}

proof fn lemma_fetches_prefix(jobs: Seq<SongJob>, events: Seq<SongEvent>, actions: Seq<SongAction>, k: int)
    requires
        is_run(jobs, events, actions),
        jobs[0].wf(),
        jobs[0].phase == Phase::Ready,
        0 <= k <= events.len(),
    ensures
        url_fetches(actions.subrange(0, k)) == jobs[k].attempt,
        jobs[k].wf(),
    decreases k,
{
    if k == 0 {
        assert(actions.subrange(0, 0) =~= Seq::<SongAction>::empty());
    } else {
        lemma_fetches_prefix(jobs, events, actions, k - 1);
        assert(step_spec(jobs[k - 1], events[k - 1], jobs[k], actions[k - 1]));
        lemma_step_counts_attempts(jobs[k - 1], events[k - 1], jobs[k], actions[k - 1]);
        assert(actions.subrange(0, k).drop_last() =~= actions.subrange(0, k - 1));
        assert(actions.subrange(0, k).last() == actions[k - 1]);
    }
}

/// How many times `actions` ends the song with a report.
pub open spec fn finishes(actions: Seq<SongAction>) -> nat
    decreases actions.len(),
{
    if actions.len() == 0 {
        0
    } else {
        finishes(actions.drop_last()) + if actions.last() is Finish { 1nat } else { 0nat }
    }
}

proof fn lemma_step_counts_finishes(job: SongJob, ev: SongEvent, next: SongJob, act: SongAction)
    requires
        step_spec(job, ev, next, act),
    ensures
        act is Finish ==> job.phase != Phase::Finished && next.phase == Phase::Finished,
        !(act is Finish) ==> (next.phase == Phase::Finished <==> job.phase == Phase::Finished),
{
}

proof fn lemma_finishes_prefix(jobs: Seq<SongJob>, events: Seq<SongEvent>, actions: Seq<SongAction>, k: int)
    requires
        is_run(jobs, events, actions),
        jobs[0].phase == Phase::Ready,
        0 <= k <= events.len(),
    ensures
        finishes(actions.subrange(0, k)) == if jobs[k].phase == Phase::Finished { 1nat } else { 0nat },
    decreases k,
{
    if k == 0 {
        assert(actions.subrange(0, 0) =~= Seq::<SongAction>::empty());
    } else {
        lemma_finishes_prefix(jobs, events, actions, k - 1);
        assert(step_spec(jobs[k - 1], events[k - 1], jobs[k], actions[k - 1]));
        lemma_step_counts_finishes(jobs[k - 1], events[k - 1], jobs[k], actions[k - 1]);
        assert(actions.subrange(0, k).drop_last() =~= actions.subrange(0, k - 1));
        assert(actions.subrange(0, k).last() == actions[k - 1]);
    }
}

/// A song's download ends with exactly one report (saved, restricted or
/// failed) once it is finished, and with none before: however the events
/// turn out, no run reports a song twice.
pub proof fn lemma_one_report_per_song(jobs: Seq<SongJob>, events: Seq<SongEvent>, actions: Seq<SongAction>)
    requires
        is_run(jobs, events, actions),
        jobs[0].phase == Phase::Ready,
    ensures
        finishes(actions) <= 1,
        finishes(actions) == 1 <==> jobs.last().phase == Phase::Finished,
{
    let n = events.len() as int;
    lemma_finishes_prefix(jobs, events, actions, n);
    assert(actions.subrange(0, n) =~= actions);
}

/// Whether a job in this phase has a temporary file on disk: from a
/// complete or broken-off download until the file is moved or removed.
pub open spec fn holds_temp(phase: Phase) -> bool {
    phase == Phase::FetchingLyric || phase == Phase::FetchingCover || phase == Phase::Embedding
        || phase == Phase::Finalizing || phase == Phase::Discarding
}

/// Whether `ev` disposes of the temporary file of a job: it was moved to
/// its final name, or removed.
pub open spec fn releases_temp(job: SongJob, ev: SongEvent) -> bool {
    ||| job.phase == Phase::Finalizing && ev matches SongEvent::RenameResult(Ok(_))
    ||| job.phase == Phase::Discarding && ev is TempRemoved
}

/// A job lets go of its temporary file only by moving it to the final name
/// or by removing it, and the file it holds is the one it asks to move or
/// remove.
pub proof fn lemma_temp_only_moved_or_removed(job: SongJob, ev: SongEvent, next: SongJob, act: SongAction)
    requires
        step_spec(job, ev, next, act),
        holds_temp(job.phase),
        !holds_temp(next.phase),
    ensures
        releases_temp(job, ev),
{
}

/// A run that has come to its end (the song is finished) has moved or
/// removed every temporary file it wrote: from each step at which the job
/// holds one, a later step releases it.
pub proof fn lemma_no_temp_left(jobs: Seq<SongJob>, events: Seq<SongEvent>, actions: Seq<SongAction>, i: int)
    requires
        is_run(jobs, events, actions),
        jobs.last().phase == Phase::Finished,
        0 <= i < jobs.len(),
        holds_temp(jobs[i].phase),
    ensures
        exists|j: int| i <= j < events.len() && #[trigger] releases_temp(jobs[j], events[j]),
    decreases jobs.len() - i,
{
    assert(i < events.len());
    assert(step_spec(jobs[i], events[i], jobs[i + 1], actions[i]));
    if holds_temp(jobs[i + 1].phase) {
        lemma_no_temp_left(jobs, events, actions, i + 1);
        let j = choose|j: int| i + 1 <= j < events.len() && #[trigger] releases_temp(jobs[j], events[j]);
        assert(releases_temp(jobs[j], events[j]));
    } else {
        lemma_temp_only_moved_or_removed(jobs[i], events[i], jobs[i + 1], actions[i]);
        assert(releases_temp(jobs[i], events[i]));
    }
}

/// Whether `ev` is the kind of outcome that a job in its phase waits for:
/// the answer to the action it last asked for.
pub open spec fn answers(job: SongJob, ev: SongEvent) -> bool {
    match (job.phase, ev) {
        (Phase::Ready, SongEvent::Start) => true,
        (Phase::FetchingUrl, SongEvent::UrlResult(_)) => true,
        (Phase::CheckingName, SongEvent::ExistingId(_)) => true,
        (Phase::Downloading, SongEvent::DownloadResult(_)) => true,
        (Phase::Discarding, SongEvent::TempRemoved) => true,
        (Phase::FetchingLyric, SongEvent::LyricResult(_)) => true,
        (Phase::FetchingCover, SongEvent::CoverResult(_)) => true,
        (Phase::Embedding, SongEvent::TagsWritten) => true,
        (Phase::Finalizing, SongEvent::RenameResult(_)) => true,
        (Phase::Waiting, SongEvent::WaitOver) => true,
        _ => false,
    }
}

/// How far a phase is from the end of its attempt.
pub open spec fn phase_rank(phase: Phase) -> nat {
    match phase {
        Phase::Finished => 0,
        Phase::Waiting => 1,
        Phase::Discarding => 2,
        Phase::Finalizing => 3,
        Phase::Embedding => 4,
        Phase::FetchingCover => 5,
        Phase::FetchingLyric => 6,
        Phase::Downloading => 7,
        Phase::CheckingName => 8,
        Phase::FetchingUrl => 9,
        Phase::Ready => 10,
    }
}

/// A bound on the steps a job has left: none once finished, else its
/// phase's distance to the end of the attempt and ten for each attempt
/// still to come.
pub open spec fn remaining_steps(job: SongJob) -> nat {
    if job.phase == Phase::Finished {
        0
    } else {
        phase_rank(job.phase) + 10 * (MAX_ATTEMPTS - job.attempt) as nat
    }
}

/// Every step that does something brings the job closer to its end, and
/// an answer to the job's last action always does something.
pub proof fn lemma_answered_step_progresses(job: SongJob, ev: SongEvent, next: SongJob, act: SongAction)
    requires
        job.wf(),
        step_spec(job, ev, next, act),
    ensures
        answers(job, ev) ==> !(act is Nothing),
        !(act is Nothing) ==> remaining_steps(next) < remaining_steps(job),
{
}

/// A job can be answered exactly when it is not finished.
pub proof fn lemma_unfinished_is_answerable(job: SongJob)
    ensures
        job.phase != Phase::Finished <==> exists|ev: SongEvent| answers(job, ev),
{
    let ev = match job.phase {
        Phase::Ready => SongEvent::Start,
        Phase::FetchingUrl => SongEvent::UrlResult(None),
        Phase::CheckingName => SongEvent::ExistingId(None),
        Phase::Downloading => SongEvent::DownloadResult(Ok(())),
        Phase::Discarding => SongEvent::TempRemoved,
        Phase::FetchingLyric => SongEvent::LyricResult(None),
        Phase::FetchingCover => SongEvent::CoverResult(None),
        Phase::Embedding => SongEvent::TagsWritten,
        Phase::Finalizing => SongEvent::RenameResult(Ok(())),
        Phase::Waiting => SongEvent::WaitOver,
        Phase::Finished => SongEvent::Start,
    };
    if job.phase != Phase::Finished {
        assert(answers(job, ev));
    }
}

proof fn lemma_answered_prefix(jobs: Seq<SongJob>, events: Seq<SongEvent>, actions: Seq<SongAction>, k: int)
    requires
        is_run(jobs, events, actions),
        jobs[0].wf(),
        jobs[0].phase == Phase::Ready,
        forall|i: int| 0 <= i < events.len() ==> answers(#[trigger] jobs[i], events[i]),
        0 <= k <= events.len(),
    ensures
        jobs[k].wf(),
        k + remaining_steps(jobs[k]) <= 10 * MAX_ATTEMPTS + 10,
    decreases k,
{
    if k > 0 {
        lemma_answered_prefix(jobs, events, actions, k - 1);
        assert(step_spec(jobs[k - 1], events[k - 1], jobs[k], actions[k - 1]));
        assert(answers(jobs[k - 1], events[k - 1]));
        lemma_answered_step_progresses(jobs[k - 1], events[k - 1], jobs[k], actions[k - 1]);
    }
}

/// A song's download ends: when the program answers each action of the job
/// with its outcome, the job is finished within 50 steps, since every
/// answer brings it closer to its end and an unfinished job can always be
/// answered (`lemma_unfinished_is_answerable`).
pub proof fn lemma_answered_run_finishes(jobs: Seq<SongJob>, events: Seq<SongEvent>, actions: Seq<SongAction>)
    requires
        is_run(jobs, events, actions),
        jobs[0].wf(),
        jobs[0].phase == Phase::Ready,
        forall|i: int| 0 <= i < events.len() ==> answers(#[trigger] jobs[i], events[i]),
    ensures
        events.len() + remaining_steps(jobs.last()) <= 50,
        events.len() == 50 ==> jobs.last().phase == Phase::Finished,
        remaining_steps(jobs.last()) == 0 <==> jobs.last().phase == Phase::Finished,
{
    let n = events.len() as int;
    lemma_answered_prefix(jobs, events, actions, n);
    let last = jobs[n];
    assert(jobs.last() == last);
    assert(last.wf());
    assert(remaining_steps(last) == 0 <==> last.phase == Phase::Finished);
}

/// With metadata on, the lyric fetched for a song is embedded: right away
/// when no cover is wanted, or kept for the tag edits while the cover is
/// fetched.
pub proof fn lemma_fetched_lyric_is_embedded(job: SongJob, l: String, next: SongJob, act: SongAction)
    requires
        job.phase == Phase::FetchingLyric,
        !job.ctx.no_metadata,
        step_spec(job, SongEvent::LyricResult(Some(l)), next, act),
    ensures
        act is WriteTags || act is FetchCover,
        act matches SongAction::WriteTags { plan, .. } ==> edits_view(plan.edits@).contains(
            TagEditView::SetLyrics(l@),
        ),
        act is FetchCover ==> next.phase == Phase::FetchingCover && next.lyric == Some(l),
{
    if act matches SongAction::WriteTags { plan, .. } {
        let plan = act->plan;
        let date = choose|date: Option<(i32, u32, u32)>|
            is_release_date_of(job.ctx.detail.publish_time, date) && edits_view(plan.edits@) == planned_edits(
                job.ctx.detail,
                opt_text(Some(l)),
                cover_view(None),
                job.ctx.no_metadata,
                date,
            );
        lemma_plan_describes_song(job.ctx.detail, opt_text(Some(l)), cover_view(None), job.ctx.no_metadata, date);
    }
}

/// With metadata on, a lyric kept while the cover is fetched is embedded,
/// whether or not the cover could be had.
pub proof fn lemma_kept_lyric_is_embedded(job: SongJob, fetched: Option<(Vec<u8>, Option<String>)>, next: SongJob, act: SongAction)
    requires
        job.phase == Phase::FetchingCover,
        !job.ctx.no_metadata,
        job.lyric is Some,
        step_spec(job, SongEvent::CoverResult(fetched), next, act),
    ensures
        act is WriteTags,
        act matches SongAction::WriteTags { plan, .. } ==> edits_view(plan.edits@).contains(
            TagEditView::SetLyrics(job.lyric->0@),
        ),
{
    let plan = act->plan;
    let cover = match fetched {
        Some((bytes, content_type)) => Some(CoverArt { bytes, mime: cover_mime_spec(opt_text(content_type)) }),
        None => None,
    };
    let date = choose|date: Option<(i32, u32, u32)>|
        is_release_date_of(job.ctx.detail.publish_time, date) && edits_view(plan.edits@) == planned_edits(
            job.ctx.detail,
            opt_text(job.lyric),
            cover_view(cover),
            job.ctx.no_metadata,
            date,
        );
    lemma_plan_describes_song(job.ctx.detail, opt_text(job.lyric), cover_view(cover), job.ctx.no_metadata, date);
}

/// A finished download stays finished and asks for nothing more.
pub proof fn lemma_finished_is_final(job: SongJob, ev: SongEvent, next: SongJob, act: SongAction)
    requires
        job.phase == Phase::Finished,
        step_spec(job, ev, next, act),
    ensures
        next == job,
        act == SongAction::Nothing,
{
}

/// A song is reported restricted only right after a `song/url` reply without
/// a usable URL, and its download then ends with no retry.
pub proof fn lemma_restricted_is_not_retried(job: SongJob, ev: SongEvent, next: SongJob, act: SongAction)
    requires
        step_spec(job, ev, next, act),
        act matches SongAction::Finish(SongReport::Restricted { .. }),
    ensures
        job.phase == Phase::FetchingUrl,
        ev matches SongEvent::UrlResult(Some(data)) && usable_url(data) is None,
        next.phase == Phase::Finished,
{
}

/// A song is reported saved only when its file was moved to its final name,
/// and under that name.
pub proof fn lemma_saved_only_after_rename(job: SongJob, ev: SongEvent, next: SongJob, act: SongAction)
    requires
        step_spec(job, ev, next, act),
        act matches SongAction::Finish(SongReport::Saved { .. }),
    ensures
        job.phase == Phase::Finalizing,
        ev matches SongEvent::RenameResult(Ok(())),
        act matches SongAction::Finish(SongReport::Saved { file_name }) && file_name@ == job.files.final_name@,
{
}

/// A song is reported failed only once its fourth attempt has failed.
pub proof fn lemma_failed_after_four_attempts(job: SongJob, ev: SongEvent, next: SongJob, act: SongAction)
    requires
        job.wf(),
        step_spec(job, ev, next, act),
        act matches SongAction::Finish(SongReport::Failed { .. }),
    ensures
        job.attempt == 4,
        next.phase == Phase::Finished,
{
}


/// When the chosen file name already belongs to another song's file, the
/// song is saved under another path, so that file is not overwritten.
pub proof fn lemma_clash_gets_other_path(job: SongJob, other: u64, next: SongJob, act: SongAction)
    requires
        job.phase == Phase::CheckingName,
        job.files.base_name@ == sanitized_name(job.ctx.display_name@),
        job.files.final_path@ == join_path(job.ctx.session_dir@, plain_file_name(job.files.base_name@, job.files.ext@)),
        other != job.ctx.song_id,
        step_spec(job, SongEvent::ExistingId(Some(other)), next, act),
    ensures
        next.files.final_path@ != job.files.final_path@,
{
    let base = job.files.base_name@;
    let ext = job.files.ext@;
    lemma_sanitized_name_is_safe(job.ctx.display_name@);
    crate::text::lemma_decimal_digits(job.ctx.song_id as nat);
    let plain = plain_file_name(base, ext);
    let tagged = id_file_name(base, job.ctx.song_id, ext);
    assert(plain[0] == base[0]);
    assert(tagged[0] == base[0]);
    assert(base[0] != '/');
    reveal_strlit(" [");
    reveal_strlit("].");
    reveal_strlit(".");
    assert(tagged.len() > plain.len());
    let dir = job.ctx.session_dir@;
    assert(join_path(dir, tagged).len() > join_path(dir, plain).len());
}

} // verus!
