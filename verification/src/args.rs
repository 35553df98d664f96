//! The command-line arguments of the downloader, as plain values.

use vstd::prelude::*;

verus! {

/// Command-line arguments (or their environment variables).
pub struct Args {
    /// Endpoint URL of the Netease API (`--api`, `NETEASE_API`).
    pub api: Option<String>,
    /// Cookie of a logged-in user (`--cookie`, `USER_COOKIE`).
    pub cookie: Option<String>,
    /// Download destination folder (`--download-path`, `DOWNLOAD_PATH`).
    pub download_path: Option<String>,
    /// Custom user agent (`--user-agent`, `USER_AGENT`).
    pub user_agent: Option<String>,
    /// Custom query parameters, e.g. `key=val&another=123`
    /// (`--query-params`, `QUERY_PARAMS`).
    pub query_params: Option<String>,
    /// Target bitrate in bps, e.g. `320000` (`--br`, `TARGET_BR`).
    pub br: Option<u32>,
    /// Track IDs to download (`--track`, repeatable).
    pub tracks: Vec<u64>,
    /// Album IDs to download (`--album`, repeatable).
    pub albums: Vec<u64>,
    /// Playlist IDs to download (`--playlist`, repeatable).
    pub playlists: Vec<u64>,
    /// Folder of a download session to resume (`--resume`).
    pub resume: Option<String>,
    /// Embed no text metadata (title, artists, lyric, ...) in the songs
    /// (`--no-metadata`, `NO_METADATA`).
    pub no_metadata: bool,
    /// Embed no cover image in the songs (`--no-cover`, `NO_COVER`).
    pub no_cover: bool,
    /// Maximum concurrent downloads (`--concurrent`, `CONCURRENT_DOWNLOADS`,
    /// 3 by default).
    pub concurrent: usize,
}

} // verus!
