use narchive::text::{parse_u64, push_decimal, utf8_len};
use narchive::utils::{
    create_dir_error, create_dir_one_level, download_id_from, generate_download_id, parent_to_check, sanitize_filename, DirAction,
};

fn chars(s: &str) -> Vec<char> {
    s.chars().collect()
}

#[test]
fn decimal_rendering() {
    let mut out = Vec::new();
    push_decimal(0, &mut out);
    assert_eq!(out, chars("0"));
    let mut out = chars("x=");
    push_decimal(1234567890123, &mut out);
    assert_eq!(out, chars("x=1234567890123"));
    let mut out = Vec::new();
    push_decimal(u64::MAX, &mut out);
    assert_eq!(out, chars("18446744073709551615"));
}

#[test]
fn parse_like_std() {
    for s in ["0", "42", "+42", "007", "", "+", "-1", "1 ", " 1", "18446744073709551615", "18446744073709551616", "12a", "++1"] {
        assert_eq!(parse_u64(&chars(s)), s.parse::<u64>().ok(), "input {:?}", s);
    }
}

#[test]
fn decimal_roundtrip() {
    for n in [0u64, 7, 10, 99, 100, 4294967296, u64::MAX] {
        let mut out = Vec::new();
        push_decimal(n, &mut out);
        assert_eq!(parse_u64(&out), Some(n));
    }
}

#[test]
fn sanitize_replaces_forbidden_characters() {
    assert_eq!(sanitize_filename("AC/DC - Back: In *Black*?"), "AC_DC - Back_ In _Black__");
    assert_eq!(sanitize_filename("a\\b\"c<d>e|f"), "a_b_c_d_e_f");
}

#[test]
fn sanitize_trims_and_falls_back_to_untitled() {
    assert_eq!(sanitize_filename("   Song   "), "Song");
    assert_eq!(sanitize_filename("\u{3000}\tSong\u{2003}\n"), "Song");
    assert_eq!(sanitize_filename(""), "untitled");
    assert_eq!(sanitize_filename(" \t\n "), "untitled");
    assert_eq!(sanitize_filename(" / "), "_");
}

#[test]
fn sanitize_matches_std_trim() {
    for s in ["  a b  ", "\u{85}x\u{a0}", "\u{200b}y", "é ", "中文 名", " ?x? "] {
        let expected: String = s
            .chars()
            .map(|c| if "/\\:*?\"<>|".contains(c) { '_' } else { c })
            .collect::<String>()
            .trim()
            .to_string();
        let expected = if expected.is_empty() { "untitled".to_string() } else { expected };
        assert_eq!(sanitize_filename(s), expected);
    }
}

#[test]
fn sanitize_is_idempotent() {
    for s in ["  a/b  ", "", "x", " ? ", "Ünïcödé:name"] {
        let once = sanitize_filename(s);
        assert_eq!(sanitize_filename(&once), once);
    }
}

#[test]
fn download_id_from_indices() {
    assert_eq!(download_id_from(&[0, 25, 26, 35, 1, 2, 34, 10]), "az09bc8k");
    assert_eq!(download_id_from(&[0; 8]), "aaaaaaaa");
}

#[test]
fn download_ids_differ() {
    let ids: Vec<String> = (0..20).map(|_| generate_download_id()).collect();
    assert!(ids.iter().any(|id| id != &ids[0]));
}

#[test]
fn download_id_shape() {
    for _ in 0..50 {
        let id = generate_download_id();
        assert_eq!(id.chars().count(), 8);
        assert!(id.chars().all(|c| c.is_ascii_lowercase() || c.is_ascii_digit()));
    }
}

#[test]
fn dir_creation_existing_folder() {
    assert_eq!(create_dir_one_level("downloads", true, false), Ok(DirAction::AlreadyThere));
}

#[test]
fn dir_creation_in_current_folder() {
    assert_eq!(parent_to_check("downloads"), None);
    assert_eq!(create_dir_one_level("downloads", false, false), Ok(DirAction::Create));
}

#[test]
fn dir_creation_one_level_below_existing_parent() {
    assert_eq!(parent_to_check("music/downloads"), Some("music".to_string()));
    assert_eq!(create_dir_one_level("music/downloads", false, true), Ok(DirAction::Create));
}

#[test]
fn dir_creation_refuses_missing_parent() {
    assert_eq!(
        create_dir_one_level("music/new/downloads", false, false),
        Err("Parent directory '\"music/new\"' does not exist. Only 1-level directory creation is supported.".to_string())
    );
}

#[test]
fn dir_creation_refuses_root() {
    assert_eq!(parent_to_check("/"), None);
    assert_eq!(create_dir_one_level("/", false, false), Err("Invalid path '\"/\"'".to_string()));
}

#[test]
fn dir_creation_error_text() {
    assert_eq!(
        create_dir_error("d", "Permission denied (os error 13)"),
        "Failed to create directory '\"d\"': Permission denied (os error 13)"
    );
}

#[test]
fn utf8_lengths() {
    assert_eq!(utf8_len(""), 0);
    assert_eq!(utf8_len("abc"), 3);
    assert_eq!(utf8_len("aé€😀"), 10);
    assert_eq!(utf8_len("aé€😀") as usize, "aé€😀".len());
}
