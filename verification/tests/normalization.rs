use paper_master::paths::{clean_windows_path, db_connection_url, push_component, to_forward_slashes};

#[test]
fn strips_verbose_prefix() {
    let p = String::from("\\\\?\\C:\\Users\\me\\paper.pdf");
    assert_eq!(clean_windows_path(&p), "C:\\Users\\me\\paper.pdf");
}

#[test]
fn no_prefix_is_identity() {
    let p = String::from("C:\\Users\\me\\paper.pdf");
    assert_eq!(clean_windows_path(&p), "C:\\Users\\me\\paper.pdf");
    let q = String::from("/home/me/paper.pdf");
    assert_eq!(clean_windows_path(&q), "/home/me/paper.pdf");
    let empty = String::new();
    assert_eq!(clean_windows_path(&empty), "");
}

#[test]
fn short_paths_keep_their_backslashes() {
    let p = String::from("\\\\?");
    assert_eq!(clean_windows_path(&p), "\\\\?");
}

#[test]
fn prefix_stripping_handles_non_ascii() {
    let p = String::from("\\\\?\\C:\\r\u{e9}sum\u{e9}.pdf");
    assert_eq!(clean_windows_path(&p), "C:\\r\u{e9}sum\u{e9}.pdf");
}

#[test]
fn converts_separators() {
    let p = String::from("C:\\a\\b\\c.pdf");
    assert_eq!(to_forward_slashes(&p), "C:/a/b/c.pdf");
    let q = String::from("/already/forward");
    assert_eq!(to_forward_slashes(&q), "/already/forward");
}

#[test]
fn connection_url_normalizes_and_wraps() {
    let p = String::from("\\\\?\\C:\\dir\\paper_master.db");
    assert_eq!(db_connection_url(&p), "file:C:/dir/paper_master.db?mode=rwc");
    let q = String::from("/home/me/paper_master.db");
    assert_eq!(db_connection_url(&q), "file:/home/me/paper_master.db?mode=rwc");
}

#[test]
fn joins_with_forward_slash() {
    let dir = String::from("/data/papers");
    let name = String::from("paper.pdf");
    assert_eq!(push_component(&dir, &name), "/data/papers/paper.pdf");
}
