use sfmanifest::manifest::sort_metadata_buckets;
use sfmanifest::diffstat::{
    clean_commit_id, commits_url, contains, diff_line, diffstat_url, get_git_diff_response, latest_commit_has_error,
    CustomError, DiffStatEntry,
};

fn entry(status: Option<&str>, old: Option<&str>, new: Option<&str>) -> DiffStatEntry {
    DiffStatEntry {
        status: status.map(String::from),
        old_path: old.map(String::from),
        new_path: new.map(String::from),
    }
}

#[test]
fn entries_become_diff_lines() {
    let es = vec![
        entry(Some("added"), None, Some("force-app/main/default/classes/A.cls")),
        entry(Some("removed"), Some("force-app/main/default/classes/B.cls"), None),
        entry(Some("modified"), Some("x/C.cls"), Some("x/C.cls")),
        entry(Some("renamed"), Some("x/Old.cls"), Some("x/New.cls")),
        entry(None, None, None),
        entry(Some("merge conflict"), None, Some("x/D.cls")),
    ];
    assert_eq!(
        get_git_diff_response(&es),
        vec![
            "A       force-app/main/default/classes/A.cls",
            "D       force-app/main/default/classes/B.cls",
            "M       x/C.cls",
            "R       x/Old.cls       x/New.cls",
            "M       x/D.cls",
        ]
    );
}

#[test]
fn raw_r_status_is_unknown_with_one_path() {
    let e = entry(Some("R"), Some("x/Old.cls"), Some("x/New.cls"));
    assert_eq!(diff_line(&e), Some(String::from("?       x/New.cls")));
    let u = entry(Some("Unknown"), None, Some("y"));
    assert_eq!(diff_line(&u), Some(String::from("?       y")));
}

#[test]
fn api_addresses() {
    assert_eq!(
        commits_url("ws", "repo", "main"),
        "https://api.bitbucket.org/2.0/repositories/ws/repo/commits/main"
    );
    assert_eq!(
        diffstat_url("ws", "repo", "abc", "def"),
        "https://api.bitbucket.org/2.0/repositories/ws/repo/diffstat/abc..def"
    );
}

#[test]
fn commit_lookup_errors() {
    assert!(latest_commit_has_error("", "abc"));
    assert!(latest_commit_has_error("fatal: ambiguous argument 'HEAD'", "abc"));
    assert!(latest_commit_has_error("abc", "branch not found"));
    assert!(!latest_commit_has_error("604ca1dc", "5e3f0a1b"));
}

#[test]
fn text_search() {
    assert!(contains("abcHEADx", "HEAD"));
    assert!(contains("abc", ""));
    assert!(!contains("HEA", "HEAD"));
    assert!(!contains("", "x"));
}

#[test]
fn commit_ids_lose_breaks_and_spaces() {
    assert_eq!(clean_commit_id(" 604ca1dc \n"), "604ca1dc");
}

#[test]
fn custom_error_message() {
    assert_eq!(CustomError::new(String::from("boom")).message(), "Custom Error: boom");
}

#[test]
fn remote_rename_removes_the_old_path() {
    let es = vec![entry(
        Some("renamed"),
        Some("force-app/main/default/classes/Old.cls"),
        Some("force-app/main/default/classes/New.cls"),
    )];
    let r = sort_metadata_buckets(&get_git_diff_response(&es));
    assert!(r.destructive_manifest.contains("<members>Old</members>"));
    assert!(!r.destructive_manifest.contains("New"));
    assert!(!r.manifest.contains("<types>"));
}
