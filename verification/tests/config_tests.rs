use narchive::args::Args;
use narchive::config::{
    apply_resume_overrides, check_args, get_resume_config_path, legacy_time_millis, migrate_config_edits, new_session_config,
    remove_old_config, resume_config_candidates, session_config_path, session_folder_name, ConfigEdit,
    DownloadConfig, LegacyFields, ResumeDirProbe, StartupError,
};

fn args() -> Args {
    Args {
        api: Some("http://localhost:3000".to_string()),
        cookie: None,
        download_path: None,
        user_agent: None,
        query_params: None,
        br: None,
        tracks: vec![1],
        albums: vec![],
        playlists: vec![],
        resume: None,
        no_metadata: false,
        no_cover: false,
        concurrent: 3,
    }
}

fn stored() -> DownloadConfig {
    DownloadConfig {
        time: 5,
        path: "/old".to_string(),
        user_agent: Some("ua".to_string()),
        query_params: Some("a=1".to_string()),
        br: Some(128000),
        tracks: vec![1, 2],
        albums: vec![3],
        playlists: vec![4],
        no_metadata: true,
        no_cover: false,
    }
}

#[test]
fn resume_candidates_in_order() {
    assert_eq!(
        resume_config_candidates("dl"),
        vec!["dl/.narchive-dl".to_string(), "dl/.config".to_string(), "dl/config.json".to_string()]
    );
    assert_eq!(resume_config_candidates("dl/")[2], "dl/config.json");
}

#[test]
fn resume_path_prefers_first_config_file() {
    let probe = ResumeDirProbe { exists: true, is_dir: true, config_files: vec![false, true, true] };
    assert_eq!(get_resume_config_path("dl", &probe), Ok("dl/.config".to_string()));
    let probe = ResumeDirProbe { exists: true, is_dir: true, config_files: vec![true, true, true] };
    assert_eq!(get_resume_config_path("/tmp/s", &probe), Ok("/tmp/s/.narchive-dl".to_string()));
}

#[test]
fn resume_path_errors() {
    let missing = ResumeDirProbe { exists: false, is_dir: false, config_files: vec![true, true, true] };
    assert_eq!(get_resume_config_path("dl", &missing), Err("Resume directory '\"dl\"' does not exist.".to_string()));
    let file = ResumeDirProbe { exists: true, is_dir: false, config_files: vec![] };
    assert_eq!(get_resume_config_path("dl", &file), Err("Resume path '\"dl\"' is not a directory.".to_string()));
    let empty = ResumeDirProbe { exists: true, is_dir: true, config_files: vec![false, false, false] };
    assert_eq!(
        get_resume_config_path("dl", &empty),
        Err("No download configuration file (.narchive-dl, .config, or config.json) found in '\"dl\"'".to_string())
    );
}

#[test]
fn startup_checks_in_order() {
    let mut a = args();
    assert_eq!(check_args(&a), Ok(()));
    a.concurrent = 0;
    a.api = None;
    assert_eq!(check_args(&a), Err(StartupError::ZeroConcurrency));
    a.concurrent = 1;
    assert_eq!(check_args(&a), Err(StartupError::MissingApi));
    a.api = Some("x".to_string());
    a.tracks = vec![];
    assert_eq!(check_args(&a), Err(StartupError::NoTargets));
    a.resume = Some("dl".to_string());
    assert_eq!(check_args(&a), Ok(()));
}

#[test]
fn new_session_takes_arguments() {
    let mut a = args();
    a.user_agent = Some("agent".to_string());
    a.br = Some(320000);
    a.albums = vec![9, 8];
    let c = new_session_config(1700000000000, "/abs/dl".to_string(), &a);
    assert_eq!(c.time, 1700000000000);
    assert_eq!(c.path, "/abs/dl");
    assert_eq!(c.user_agent, Some("agent".to_string()));
    assert_eq!(c.query_params, None);
    assert_eq!(c.br, Some(320000));
    assert_eq!(c.tracks, vec![1]);
    assert_eq!(c.albums, vec![9, 8]);
    assert!(c.playlists.is_empty());
    assert!(!c.no_metadata && !c.no_cover);
}

#[test]
fn new_session_takes_embedding_flags() {
    let mut a = args();
    a.no_cover = true;
    let c = new_session_config(1, "/abs/dl".to_string(), &a);
    assert!(!c.no_metadata);
    assert!(c.no_cover);
}

#[test]
fn resume_switches_embedding_flags_on_only() {
    let mut a = args();
    a.no_cover = true;
    let mut c = stored();
    apply_resume_overrides(&mut c, &a, 2, "/p".to_string());
    assert!(c.no_metadata);
    assert!(c.no_cover);
    let mut c = stored();
    apply_resume_overrides(&mut c, &args(), 2, "/p".to_string());
    assert!(c.no_metadata);
    assert!(!c.no_cover);
}

#[test]
fn resume_keeps_stored_values_without_overrides() {
    let mut a = args();
    a.tracks = vec![];
    let mut c = stored();
    apply_resume_overrides(&mut c, &a, 99, "/new".to_string());
    assert_eq!(c.time, 99);
    assert_eq!(c.path, "/new");
    assert_eq!(c.user_agent, Some("ua".to_string()));
    assert_eq!(c.query_params, Some("a=1".to_string()));
    assert_eq!(c.br, Some(128000));
    assert_eq!(c.tracks, vec![1, 2]);
    assert_eq!(c.albums, vec![3]);
    assert_eq!(c.playlists, vec![4]);
    assert!(c.no_metadata);
}

#[test]
fn resume_overrides_given_values() {
    let mut a = args();
    a.user_agent = Some("new-ua".to_string());
    a.br = Some(320000);
    a.tracks = vec![7, 8];
    a.playlists = vec![10];
    let mut c = stored();
    apply_resume_overrides(&mut c, &a, 1, "/p".to_string());
    assert_eq!(c.user_agent, Some("new-ua".to_string()));
    assert_eq!(c.query_params, Some("a=1".to_string()));
    assert_eq!(c.br, Some(320000));
    assert_eq!(c.tracks, vec![7, 8]);
    assert_eq!(c.albums, vec![3]);
    assert_eq!(c.playlists, vec![10]);
    let mut again = DownloadConfig { path: c.path.clone(), ..c.clone_config() };
    apply_resume_overrides(&mut again, &a, 1, "/p".to_string());
    assert_eq!(again.tracks, c.tracks);
    assert_eq!(again.user_agent, c.user_agent);
}

trait CloneConfig {
    fn clone_config(&self) -> DownloadConfig;
}

impl CloneConfig for DownloadConfig {
    fn clone_config(&self) -> DownloadConfig {
        DownloadConfig {
            time: self.time,
            path: self.path.clone(),
            user_agent: self.user_agent.clone(),
            query_params: self.query_params.clone(),
            br: self.br,
            tracks: self.tracks.clone(),
            albums: self.albums.clone(),
            playlists: self.playlists.clone(),
            no_metadata: self.no_metadata,
            no_cover: self.no_cover,
        }
    }
}

#[test]
fn session_names() {
    assert_eq!(session_folder_name("ab12cd34"), "narchive-ab12cd34");
    assert_eq!(session_config_path("/abs/dl"), "/abs/dl/.narchive-dl");
}

#[test]
fn old_config_removal() {
    assert!(remove_old_config("/abs/dl/config.json", "/abs/dl/.narchive-dl"));
    assert!(!remove_old_config("/abs/dl/.narchive-dl", "/abs/dl/.narchive-dl"));
    assert!(!remove_old_config("/abs//dl/.narchive-dl", "/abs/dl/.narchive-dl"));
    assert!(!remove_old_config("/other/config.json", "/abs/dl/.narchive-dl"));
}

fn describe(e: &ConfigEdit) -> String {
    match e {
        ConfigEdit::Remove(k) => format!("-{}", k),
        ConfigEdit::SetNumber(k, n) => format!("{}={}", k, n),
        ConfigEdit::SetText(k, v) => format!("{}:{}", k, v),
    }
}

#[test]
fn migration_of_old_config() {
    let fields = LegacyFields {
        is_object: true,
        time_created: Some("not a time".to_string()),
        download_path: Some("./dl".to_string()),
        resolved_download_path: Some("/abs/dl".to_string()),
    };
    let edits: Vec<String> = migrate_config_edits(fields, 42).iter().map(describe).collect();
    assert_eq!(edits, vec!["-download_id", "time=42", "-time_created", "path:/abs/dl", "-download_path"]);
    let fields = LegacyFields {
        is_object: true,
        time_created: Some("20240101000000".to_string()),
        download_path: None,
        resolved_download_path: None,
    };
    let edits: Vec<String> = migrate_config_edits(fields, 42).iter().map(describe).collect();
    assert_eq!(edits, vec!["-download_id", "time=1704067200000", "-time_created"]);
}

#[test]
fn migration_of_current_config() {
    let fields = LegacyFields { is_object: true, time_created: None, download_path: None, resolved_download_path: None };
    let edits: Vec<String> = migrate_config_edits(fields, 42).iter().map(describe).collect();
    assert_eq!(edits, vec!["-download_id"]);
    let fields = LegacyFields {
        is_object: true,
        time_created: None,
        download_path: Some("gone".to_string()),
        resolved_download_path: None,
    };
    let edits: Vec<String> = migrate_config_edits(fields, 42).iter().map(describe).collect();
    assert_eq!(edits, vec!["-download_id", "path:gone", "-download_path"]);
    let fields = LegacyFields { is_object: false, time_created: None, download_path: None, resolved_download_path: None };
    assert!(migrate_config_edits(fields, 1).is_empty());
}

#[test]
fn legacy_times() {
    assert_eq!(legacy_time_millis("20240101000000", 7), 1704067200000);
    assert_eq!(legacy_time_millis("19700101000001", 7), 1000);
    assert_eq!(legacy_time_millis("2024-01-01", 7), 7);
    assert_eq!(legacy_time_millis("", 7), 7);
}
