//! The persistent session configuration and how a resumed session finds and
//! reconciles it.

use vstd::prelude::*;
use crate::args::Args;
use crate::utils::{parent_path, path_parent};
use crate::text::{chars_of, string_of, append_str, join_path, join_path_chars};

verus! {

/// Persistent configuration stored as JSON in the session folder.
/// The API endpoint and the cookie are not part of it: they are given at
/// run time.
pub struct DownloadConfig {
    pub time: u64,
    pub path: String,
    pub user_agent: Option<String>,
    pub query_params: Option<String>,
    pub br: Option<u32>,
    pub tracks: Vec<u64>,
    pub albums: Vec<u64>,
    pub playlists: Vec<u64>,
    pub no_metadata: bool,
    pub no_cover: bool,
}

/// The name of the `i`-th configuration file a resumed session looks for,
/// in order of preference.
pub open spec fn config_file_name(i: int) -> Seq<char> {
    if i == 0 {
        ".narchive-dl"@
    } else if i == 1 {
        ".config"@
    } else {
        "config.json"@
    }
}

/// What the folder given to `--resume` looks like on disk: whether it
/// exists, whether it is a directory, and for each configuration file name
/// (in the order of `config_file_name`) whether a regular file of that name
/// is in it.
pub struct ResumeDirProbe {
    pub exists: bool,
    pub is_dir: bool,
    pub config_files: Vec<bool>,
}

/// What `format!("{:?}", Path::new(p))` renders for the path `p`.
pub uninterp spec fn path_debug(p: Seq<char>) -> Seq<char>;

/// Calls the `Debug` formatting of `std::path::Path` on `p`. The contract
/// names the rendering: a function of the path text alone.
#[verifier::external_body]
pub(crate) fn debug_path(p: &str) -> (r: String)
    ensures
        r@ == path_debug(p@),
{
    format!("{:?}", std::path::Path::new(p))
}

/// The index of the first configuration file found, if any.
pub open spec fn first_config_file(files: Seq<bool>) -> Option<int> {
    if files.len() > 0 && files[0] {
        Some(0)
    } else if files.len() > 1 && files[1] {
        Some(1)
    } else if files.len() > 2 && files[2] {
        Some(2)
    } else {
        None
    }
}

/// Whether the probe found the `k`-th configuration file.
pub open spec fn has_file(files: Seq<bool>, k: int) -> bool {
    0 <= k < files.len() && files[k]
}

/// In an existing folder, the configuration file of a resumed session is
/// `.narchive-dl`, else `.config`, else `config.json`, whichever is there
/// first; the lookup fails only when none of the three is there.
pub proof fn lemma_resume_config_found(dir: Seq<char>, exists: bool, is_dir: bool, files: Seq<bool>)
    ensures
        exists && is_dir && has_file(files, 0) ==> resume_config_result(dir, exists, is_dir, files) == Ok::<
            Seq<char>,
            Seq<char>,
        >(join_path(dir, ".narchive-dl"@)),
        exists && is_dir && !has_file(files, 0) && has_file(files, 1) ==> resume_config_result(
            dir,
            exists,
            is_dir,
            files,
        ) == Ok::<Seq<char>, Seq<char>>(join_path(dir, ".config"@)),
        exists && is_dir && !has_file(files, 0) && !has_file(files, 1) && has_file(files, 2)
            ==> resume_config_result(dir, exists, is_dir, files) == Ok::<Seq<char>, Seq<char>>(
            join_path(dir, "config.json"@),
        ),
        resume_config_result(dir, exists, is_dir, files) is Ok ==> exists && is_dir && (has_file(files, 0)
            || has_file(files, 1) || has_file(files, 2)),
{
}

/// The error for a resume folder that does not exist.
pub open spec fn missing_dir_message(dir: Seq<char>) -> Seq<char> {
    "Resume directory '"@ + path_debug(dir) + "' does not exist."@
}

/// The error for a resume path that is not a folder.
pub open spec fn not_a_dir_message(dir: Seq<char>) -> Seq<char> {
    "Resume path '"@ + path_debug(dir) + "' is not a directory."@
}

/// The error for a resume folder without a configuration file.
pub open spec fn no_config_message(dir: Seq<char>) -> Seq<char> {
    "No download configuration file (.narchive-dl, .config, or config.json) found in '"@
        + path_debug(dir) + "'"@
}

/// The outcome of looking for the configuration file of a resumed session.
pub open spec fn resume_config_result(dir: Seq<char>, exists: bool, is_dir: bool, files: Seq<bool>) -> Result<Seq<char>, Seq<char>> {
    if !exists {
        Err(missing_dir_message(dir))
    } else if !is_dir {
        Err(not_a_dir_message(dir))
    } else {
        match first_config_file(files) {
            Some(i) => Ok(join_path(dir, config_file_name(i))),
            None => Err(no_config_message(dir)),
        }
    }
}

fn config_file_name_chars(i: usize) -> (r: Vec<char>)
    requires
        i < 3,
    ensures
        r@ == config_file_name(i as int),
{
    if i == 0 {
        chars_of(".narchive-dl")
    } else if i == 1 {
        chars_of(".config")
    } else {
        chars_of("config.json")
    }
}

/// The paths of the configuration files that a resumed session in `dir`
/// looks for, in order of preference.
pub fn resume_config_candidates(dir: &str) -> (r: Vec<String>)
    ensures
        r@.len() == 3,
        forall|i: int| 0 <= i < 3 ==> #[trigger] r@[i]@ == join_path(dir@, config_file_name(i)),
{
    let d = chars_of(dir);
    let mut r: Vec<String> = Vec::new();
    let mut i: usize = 0;
    while i < 3
        invariant
            i <= 3,
            d@ == dir@,
            r@.len() == i,
            forall|k: int| 0 <= k < i ==> #[trigger] r@[k]@ == join_path(dir@, config_file_name(k)),
        decreases 3 - i,
    {
        let name = config_file_name_chars(i);
        let p = join_path_chars(&d, &name);
        r.push(string_of(&p));
        i = i + 1;
    }
    r
}

fn message_around(before: &str, dir: &str, after: &str) -> (r: String)
    ensures
        r@ == before@ + path_debug(dir@) + after@,
{
    let mut cs = chars_of(before);
    let shown = debug_path(dir);
    append_str(&mut cs, shown.as_str());
    append_str(&mut cs, after);
    string_of(&cs)
}

/// Finds the configuration file in the folder of a resumed session, given
/// what the folder looks like on disk.
pub fn get_resume_config_path(resume_dir: &str, probe: &ResumeDirProbe) -> (r: Result<String, String>)
    ensures
        match (r, resume_config_result(resume_dir@, probe.exists, probe.is_dir, probe.config_files@)) {
            (Ok(p), Ok(q)) => p@ == q,
            (Err(e), Err(f)) => e@ == f,
            _ => false,
        },
        probe.exists && probe.is_dir && has_file(probe.config_files@, 0) ==> (r matches Ok(p) && p@
            == join_path(resume_dir@, ".narchive-dl"@)),
        probe.exists && probe.is_dir && !has_file(probe.config_files@, 0) && has_file(probe.config_files@, 1)
            ==> (r matches Ok(p) && p@ == join_path(resume_dir@, ".config"@)),
        probe.exists && probe.is_dir && !has_file(probe.config_files@, 0) && !has_file(probe.config_files@, 1)
            && has_file(probe.config_files@, 2) ==> (r matches Ok(p) && p@ == join_path(resume_dir@, "config.json"@)),
        r is Ok ==> probe.exists && probe.is_dir && (has_file(probe.config_files@, 0) || has_file(
            probe.config_files@,
            1,
        ) || has_file(probe.config_files@, 2)),
{
    proof {
        lemma_resume_config_found(resume_dir@, probe.exists, probe.is_dir, probe.config_files@);
    }
    if !probe.exists {
        return Err(message_around("Resume directory '", resume_dir, "' does not exist."));
    }
    if !probe.is_dir {
        return Err(message_around("Resume path '", resume_dir, "' is not a directory."));
    }
    let files = &probe.config_files;
    let mut i: usize = 0;
    while i < 3
        invariant
            i <= 3,
            files@ == probe.config_files@,
            probe.exists,
            probe.is_dir,
            forall|k: int| 0 <= k < i ==> !(k < files@.len() && #[trigger] files@[k]),
        decreases 3 - i,
    {
        if i < files.len() && files[i] {
            assert(i > 0 ==> !(0 < files@.len() && files@[0]));
            assert(i > 1 ==> !(1 < files@.len() && files@[1]));
            assert(first_config_file(files@) == Some(i as int));
            let d = chars_of(resume_dir);
            let name = config_file_name_chars(i);
            let p = join_path_chars(&d, &name);
            return Ok(string_of(&p));
        }
        i = i + 1;
    }
    Err(message_around(
        "No download configuration file (.narchive-dl, .config, or config.json) found in '",
        resume_dir,
        "'",
    ))
}


/// Why the downloader cannot start.
#[derive(Debug, PartialEq, Eq)]
pub enum StartupError {
    /// The concurrency limit is 0.
    ZeroConcurrency,
    /// No API endpoint was given.
    MissingApi,
    /// A new session was asked for without any track, album or playlist.
    NoTargets,
}

/// The outcome of checking the arguments, in the order the downloader checks
/// them.
pub open spec fn startup_check(args: Args) -> Result<(), StartupError> {
    if args.concurrent == 0 {
        Err(StartupError::ZeroConcurrency)
    } else if args.api is None {
        Err(StartupError::MissingApi)
    } else if args.resume is None && args.tracks@.len() == 0 && args.albums@.len() == 0
        && args.playlists@.len() == 0 {
        Err(StartupError::NoTargets)
    } else {
        Ok(())
    }
}

/// Checks the arguments: a concurrency limit of at least 1, an API endpoint,
/// and, for a new session, at least one target.
pub fn check_args(args: &Args) -> (r: Result<(), StartupError>)
    ensures
        r == startup_check(*args),
{
    if args.concurrent == 0 {
        Err(StartupError::ZeroConcurrency)
    } else if args.api.is_none() {
        Err(StartupError::MissingApi)
    } else if args.resume.is_none() && args.tracks.len() == 0 && args.albums.len() == 0
        && args.playlists.len() == 0 {
        Err(StartupError::NoTargets)
    } else {
        Ok(())
    }
}

fn clone_ids(v: &Vec<u64>) -> (r: Vec<u64>)
    ensures
        r@ == v@,
{
    let mut r: Vec<u64> = Vec::new();
    let mut i: usize = 0;
    while i < v.len()
        invariant
            i <= v@.len(),
            r@ == v@.subrange(0, i as int),
        decreases v.len() - i,
    {
        r.push(v[i]);
        i = i + 1;
        assert(r@ =~= v@.subrange(0, i as int));
    }
    assert(v@.subrange(0, v@.len() as int) =~= v@);
    r
}

fn clone_opt(s: &Option<String>) -> (r: Option<String>)
    ensures
        r == *s,
{
    match s {
        Some(t) => Some(t.clone()),
        None => None,
    }
}

/// The configuration of a new session created at `time` (milliseconds since
/// the epoch) in the folder `path`.
pub fn new_session_config(time: u64, path: String, args: &Args) -> (r: DownloadConfig)
    ensures
        r.time == time,
        r.path == path,
        r.user_agent == args.user_agent,
        r.query_params == args.query_params,
        r.br == args.br,
        r.tracks@ == args.tracks@,
        r.albums@ == args.albums@,
        r.playlists@ == args.playlists@,
        r.no_metadata == args.no_metadata,
        r.no_cover == args.no_cover,
{
    DownloadConfig {
        time,
        path,
        user_agent: clone_opt(&args.user_agent),
        query_params: clone_opt(&args.query_params),
        br: args.br,
        tracks: clone_ids(&args.tracks),
        albums: clone_ids(&args.albums),
        playlists: clone_ids(&args.playlists),
        no_metadata: args.no_metadata,
        no_cover: args.no_cover,
    }
}

/// Reconciles a resumed session's stored configuration with the command
/// line: the session gets the new time and folder; a user agent, query
/// parameters or bitrate given on the command line replace the stored ones;
/// a non-empty list of tracks, albums or playlists replaces the stored list;
/// `--no-metadata` and `--no-cover` switch those settings on (a session that
/// has them keeps them); everything else is kept.
pub fn apply_resume_overrides(config: &mut DownloadConfig, args: &Args, time: u64, path: String)
    ensures
        resumed_config(*old(config), *args, time, path, *final(config)),
        args.tracks@.len() > 0 ==> final(config).tracks@ == args.tracks@,
        args.albums@.len() > 0 ==> final(config).albums@ == args.albums@,
        args.playlists@.len() > 0 ==> final(config).playlists@ == args.playlists@,
        args.tracks@.len() == 0 ==> final(config).tracks@ == old(config).tracks@,
        args.albums@.len() == 0 ==> final(config).albums@ == old(config).albums@,
        args.playlists@.len() == 0 ==> final(config).playlists@ == old(config).playlists@,
        args.user_agent is Some ==> final(config).user_agent == args.user_agent,
        args.query_params is Some ==> final(config).query_params == args.query_params,
        args.br is Some ==> final(config).br == args.br,
        final(config).time == time,
        final(config).path == path,
{
    config.time = time;
    config.path = path;
    if args.user_agent.is_some() {
        config.user_agent = clone_opt(&args.user_agent);
    }
    if args.query_params.is_some() {
        config.query_params = clone_opt(&args.query_params);
    }
    if args.br.is_some() {
        config.br = args.br;
    }
    if args.tracks.len() > 0 {
        config.tracks = clone_ids(&args.tracks);
    }
    if args.albums.len() > 0 {
        config.albums = clone_ids(&args.albums);
    }
    if args.playlists.len() > 0 {
        config.playlists = clone_ids(&args.playlists);
    }
    if args.no_metadata {
        config.no_metadata = true;
    }
    if args.no_cover {
        config.no_cover = true;
    }
}

/// A resumed session takes each non-empty list of tracks, albums or
/// playlists and each user agent, query or bitrate given on the command
/// line; an empty list leaves the stored one as it was.
pub proof fn lemma_resume_takes_command_line(before: DownloadConfig, args: Args, time: u64, path: String, after: DownloadConfig)
    requires
        resumed_config(before, args, time, path, after),
    ensures
        args.tracks@.len() > 0 ==> after.tracks@ == args.tracks@,
        args.albums@.len() > 0 ==> after.albums@ == args.albums@,
        args.playlists@.len() > 0 ==> after.playlists@ == args.playlists@,
        args.tracks@.len() == 0 ==> after.tracks@ == before.tracks@,
        args.albums@.len() == 0 ==> after.albums@ == before.albums@,
        args.playlists@.len() == 0 ==> after.playlists@ == before.playlists@,
        args.user_agent is Some ==> after.user_agent == args.user_agent,
        args.query_params is Some ==> after.query_params == args.query_params,
        args.br is Some ==> after.br == args.br,
        args.no_metadata ==> after.no_metadata,
        args.no_cover ==> after.no_cover,
{
}

/// Resuming twice with the same command line and the same time and folder
/// gives the same configuration as resuming once.
pub proof fn lemma_resume_overrides_idempotent(c0: DownloadConfig, c1: DownloadConfig, c2: DownloadConfig, args: Args, time: u64, path: String)
    requires
        resumed_config(c0, args, time, path, c1),
        resumed_config(c1, args, time, path, c2),
    ensures
        c2.time == c1.time,
        c2.path == c1.path,
        c2.user_agent == c1.user_agent,
        c2.query_params == c1.query_params,
        c2.br == c1.br,
        c2.tracks@ == c1.tracks@,
        c2.albums@ == c1.albums@,
        c2.playlists@ == c1.playlists@,
        c2.no_metadata == c1.no_metadata,
        c2.no_cover == c1.no_cover,
{
}

/// Whether `after` is `before` reconciled with the command line (see
/// `apply_resume_overrides`).
pub open spec fn resumed_config(before: DownloadConfig, args: Args, time: u64, path: String, after: DownloadConfig) -> bool {
    &&& after.time == time
    &&& after.path == path
    &&& after.user_agent == (if args.user_agent is Some { args.user_agent } else { before.user_agent })
    &&& after.query_params == (if args.query_params is Some { args.query_params } else { before.query_params })
    &&& after.br == (if args.br is Some { args.br } else { before.br })
    &&& after.tracks@ == (if args.tracks@.len() > 0 { args.tracks@ } else { before.tracks@ })
    &&& after.albums@ == (if args.albums@.len() > 0 { args.albums@ } else { before.albums@ })
    &&& after.playlists@ == (if args.playlists@.len() > 0 { args.playlists@ } else { before.playlists@ })
    &&& after.no_metadata == (args.no_metadata || before.no_metadata)
    &&& after.no_cover == (args.no_cover || before.no_cover)
}

/// The name of the folder of a new session without a download path:
/// `narchive-<id>`.
pub fn session_folder_name(download_id: &str) -> (r: String)
    ensures
        r@ == "narchive-"@ + download_id@,
{
    let mut cs = chars_of("narchive-");
    append_str(&mut cs, download_id);
    string_of(&cs)
}

/// The path the configuration of a session in `dir` is written to:
/// `<dir>/.narchive-dl`.
pub fn session_config_path(dir: &str) -> (r: String)
    ensures
        r@ == join_path(dir@, config_file_name(0)),
{
    let d = chars_of(dir);
    let name = config_file_name_chars(0);
    string_of(&join_path_chars(&d, &name))
}

/// Whether `std::path::Path` considers the paths `a` and `b` equal
/// (component by component).
pub uninterp spec fn same_path(a: Seq<char>, b: Seq<char>) -> bool;

/// Calls `PartialEq` of `std::path::Path`. The contract names the answer:
/// a function of the two path texts alone.
#[verifier::external_body]
fn paths_equal(a: &str, b: &str) -> (r: bool)
    ensures
        r == same_path(a@, b@),
{
    std::path::Path::new(a) == std::path::Path::new(b)
}

/// Whether two paths have equal parents (as `Path` compares them), or both
/// have none.
pub open spec fn same_parent(a: Seq<char>, b: Seq<char>) -> bool {
    match (path_parent(a), path_parent(b)) {
        (Some(x), Some(y)) => same_path(x, y),
        (None, None) => true,
        _ => false,
    }
}

/// Whether the configuration file a session was resumed from is removed
/// once the configuration is written to `<session>/.narchive-dl`: when it is
/// another file in the same folder.
pub fn remove_old_config(old_path: &str, new_path: &str) -> (r: bool)
    ensures
        r == (!same_path(old_path@, new_path@) && same_parent(old_path@, new_path@)),
{
    if paths_equal(old_path, new_path) {
        return false;
    }
    match (parent_path(old_path), parent_path(new_path)) {
        (Some(a), Some(b)) => paths_equal(a.as_str(), b.as_str()),
        (None, None) => true,
        _ => false,
    }
}

/// One change to the JSON object of a stored configuration, made before it
/// is read as a `DownloadConfig`.
pub enum ConfigEdit {
    /// Remove the key.
    Remove(String),
    /// Set the key to a number.
    SetNumber(String, u64),
    /// Set the key to a string.
    SetText(String, String),
}

/// A configuration change as plain values.
pub enum ConfigEditView {
    Remove(Seq<char>),
    SetNumber(Seq<char>, u64),
    SetText(Seq<char>, Seq<char>),
}

impl View for ConfigEdit {
    type V = ConfigEditView;

    open spec fn view(&self) -> ConfigEditView {
        match self {
            ConfigEdit::Remove(k) => ConfigEditView::Remove(k@),
            ConfigEdit::SetNumber(k, n) => ConfigEditView::SetNumber(k@, *n),
            ConfigEdit::SetText(k, v) => ConfigEditView::SetText(k@, v@),
        }
    }
}

/// What the migration of an older configuration file looks at: whether the
/// stored JSON is an object, its `time_created` if that is a string, and its
/// `download_path` if that is a string (with the absolute form of that path,
/// when it could be resolved).
pub struct LegacyFields {
    pub is_object: bool,
    pub time_created: Option<String>,
    pub download_path: Option<String>,
    pub resolved_download_path: Option<String>,
}

/// The milliseconds since the epoch that `chrono` gives for `s` read by
/// `NaiveDateTime::parse_from_str` in the form `%Y%m%d%H%M%S` and taken as
/// UTC, or `None` when it refuses `s`.
pub uninterp spec fn compact_time_millis(s: Seq<char>) -> Option<i64>;

/// Calls `chrono::NaiveDateTime::parse_from_str(s, "%Y%m%d%H%M%S")` and, on
/// success, `and_utc().timestamp_millis()`. The result is a function of the
/// text alone; within chrono's range the milliseconds fit an `i64`.
#[verifier::external_body]
fn parse_compact_time(s: &str) -> (r: Option<i64>)
    ensures
        r == compact_time_millis(s@),
{
    chrono::NaiveDateTime::parse_from_str(s, "%Y%m%d%H%M%S").ok().map(|dt| dt.and_utc().timestamp_millis())
}

/// The `time` a session created at the textual time `created` gets: that
/// time in milliseconds (as an unsigned number, so a time before 1970 wraps
/// around), or `now_ms` when the text is not such a time.
pub open spec fn legacy_time(created: Seq<char>, now_ms: u64) -> u64 {
    match compact_time_millis(created) {
        Some(ms) => ms as u64,
        None => now_ms,
    }
}

/// The `time` of a session created at the textual time `created` (see
/// `legacy_time`).
pub fn legacy_time_millis(created: &str, now_ms: u64) -> (r: u64)
    ensures
        r == legacy_time(created@, now_ms),
{
    match parse_compact_time(created) {
        Some(ms) => ms as u64,
        None => now_ms,
    }
}

/// The edits that bring an older configuration file up to date: drop
/// `download_id`; turn a textual `time_created` into a numeric `time` (see
/// `legacy_time`, with `now_ms` the current time); turn a textual
/// `download_path` into `path` (its absolute form when it could be resolved).
pub open spec fn migration_edits(fields: LegacyFields, now_ms: u64) -> Seq<ConfigEditView> {
    if !fields.is_object {
        Seq::empty()
    } else {
        seq![ConfigEditView::Remove("download_id"@)] + (match fields.time_created {
            Some(t) => seq![
                ConfigEditView::SetNumber("time"@, legacy_time(t@, now_ms)),
                ConfigEditView::Remove("time_created"@),
            ],
            None => Seq::empty(),
        }) + (match fields.download_path {
            Some(p) => seq![
                ConfigEditView::SetText("path"@, match fields.resolved_download_path {
                    Some(a) => a@,
                    None => p@,
                }),
                ConfigEditView::Remove("download_path"@),
            ],
            None => Seq::empty(),
        })
    }
}

/// The edits of a migration, as plain values.
pub open spec fn config_edits_view(v: Seq<ConfigEdit>) -> Seq<ConfigEditView> {
    v.map_values(|e: ConfigEdit| e@)
}

fn push_config_edit(edits: &mut Vec<ConfigEdit>, e: ConfigEdit)
    ensures
        config_edits_view(final(edits)@) == config_edits_view(old(edits)@).push(e@),
{
    edits.push(e);
    assert(config_edits_view(edits@) =~= config_edits_view(old(edits)@).push(e@));
}

fn key(k: &str) -> (r: String)
    ensures
        r@ == k@,
{
    string_of(&chars_of(k))
}

/// Plans the migration of an older configuration file (see
/// `migration_edits`).
pub fn migrate_config_edits(fields: LegacyFields, now_ms: u64) -> (r: Vec<ConfigEdit>)
    ensures
        config_edits_view(r@) == migration_edits(fields, now_ms),
{
    let mut edits: Vec<ConfigEdit> = Vec::new();
    if !fields.is_object {
        assert(config_edits_view(edits@) =~= Seq::<ConfigEditView>::empty());
        return edits;
    }
    push_config_edit(&mut edits, ConfigEdit::Remove(key("download_id")));
    match &fields.time_created {
        Some(t) => {
            let time = legacy_time_millis(t.as_str(), now_ms);
            push_config_edit(&mut edits, ConfigEdit::SetNumber(key("time"), time));
            push_config_edit(&mut edits, ConfigEdit::Remove(key("time_created")));
        },
        None => {},
    }
    match fields.download_path {
        Some(p) => {
            let value = match fields.resolved_download_path {
                Some(a) => a,
                None => p,
            };
            push_config_edit(&mut edits, ConfigEdit::SetText(key("path"), value));
            push_config_edit(&mut edits, ConfigEdit::Remove(key("download_path")));
        },
        None => {},
    }
    assert(config_edits_view(edits@) =~= migration_edits(fields, now_ms));
    edits
}

} // verus!
