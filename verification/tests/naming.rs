//! Sanitization and collision-resolution behaviour on concrete names.

use lanshare::names::{resolve_unique_name, sanitize_filename};

#[test]
fn sanitize_strips_spaces() {
    assert_eq!(sanitize_filename("report final.PDF"), "reportfinal.PDF");
}

#[test]
fn sanitize_keeps_allowed_characters() {
    assert_eq!(sanitize_filename("a-b_c.d9Z"), "a-b_c.d9Z");
}

#[test]
fn sanitize_strips_path_separators() {
    assert_eq!(sanitize_filename("../../etc/passwd"), "....etcpasswd");
}

#[test]
fn sanitize_empty_falls_back() {
    assert_eq!(sanitize_filename(""), "file");
}

#[test]
fn sanitize_fully_stripped_falls_back() {
    assert_eq!(sanitize_filename("   !!! "), "file");
}

#[test]
fn sanitize_non_ascii_is_stripped() {
    assert_eq!(sanitize_filename("héllo wörld"), "hllowrld");
    assert_eq!(sanitize_filename("日本語"), "file");
}

#[test]
fn sanitize_output_is_always_clean() {
    let inputs = ["a b", "x/y\\z", "<>:\"|?*", "tab\tname", "ok.txt", ""];
    for raw in inputs {
        let s = sanitize_filename(raw);
        assert!(!s.is_empty());
        assert!(s.chars().all(|c| c.is_ascii_alphanumeric() || c == '.' || c == '-' || c == '_'));
    }
}

#[test]
fn resolve_free_name_unchanged() {
    let existing: Vec<String> = Vec::new();
    assert_eq!(resolve_unique_name(&existing, &"a.txt".to_string()), "a.txt");
}

#[test]
fn resolve_collision_appends_suffix() {
    let existing = vec!["a.txt".to_string()];
    assert_eq!(resolve_unique_name(&existing, &"a.txt".to_string()), "a_1.txt");
}

#[test]
fn resolve_suffixes_increase() {
    let mut existing = vec!["a.txt".to_string()];
    let mut seen = vec!["a.txt".to_string()];
    for i in 1..=5u32 {
        let r = resolve_unique_name(&existing, &"a.txt".to_string());
        assert_eq!(r, format!("a_{}.txt", i));
        assert!(!seen.contains(&r));
        seen.push(r.clone());
        existing.push(r);
    }
}

#[test]
fn resolve_without_extension() {
    let existing = vec!["notes".to_string()];
    assert_eq!(resolve_unique_name(&existing, &"notes".to_string()), "notes_1");
}

#[test]
fn resolve_dotfile_keeps_extension() {
    let existing = vec![".bashrc".to_string()];
    assert_eq!(resolve_unique_name(&existing, &".bashrc".to_string()), "_1.bashrc");
}

#[test]
fn resolve_skips_taken_suffixes() {
    let existing = vec!["a.txt".to_string(), "a_1.txt".to_string(), "a_2.txt".to_string()];
    assert_eq!(resolve_unique_name(&existing, &"a.txt".to_string()), "a_3.txt");
}

#[test]
fn resolve_uses_last_dot_for_extension() {
    let existing = vec!["archive.tar.gz".to_string()];
    assert_eq!(resolve_unique_name(&existing, &"archive.tar.gz".to_string()), "archive.tar_1.gz");
}
