use book_scanner::extension::{file_extension, is_markdown_extension, is_markdown_file_name};
use book_scanner::scan::{count_markdown_entries, scan_directory_for_books, PathState, ScanError, ScanResult};

fn listing(names: &[&str]) -> Vec<Option<Vec<u8>>> {
    names.iter().map(|n| Some(n.as_bytes().to_vec())).collect()
}

fn scan_ok(names: &[&str]) -> ScanResult {
    let state = PathState::Directory { listing: Ok(listing(names)) };
    match scan_directory_for_books("/books".to_string(), state) {
        Ok(r) => r,
        Err(e) => panic!("scan failed: {}", e.message()),
    }
}

#[test]
fn missing_path_is_not_found() {
    let r = scan_directory_for_books("/no/such/dir".to_string(), PathState::Missing);
    match r {
        Err(ScanError::NotFound { path }) => assert_eq!(path, "/no/such/dir"),
        _ => panic!("expected NotFound"),
    }
}

#[test]
fn regular_file_is_not_a_directory() {
    let r = scan_directory_for_books("/books/a.md".to_string(), PathState::NotADirectory);
    match r {
        Err(ScanError::NotADirectory { path }) => assert_eq!(path, "/books/a.md"),
        _ => panic!("expected NotADirectory"),
    }
}

#[test]
fn unlistable_directory_is_read_error() {
    let state = PathState::Directory { listing: Err("permission denied".to_string()) };
    match scan_directory_for_books("/root".to_string(), state) {
        Err(ScanError::ReadError { reason }) => assert_eq!(reason, "permission denied"),
        _ => panic!("expected ReadError"),
    }
}

#[test]
fn error_messages_name_path_or_reason() {
    let e = ScanError::NotFound { path: "/x".to_string() };
    assert_eq!(e.message(), "Directory does not exist: /x");
    let e = ScanError::NotADirectory { path: "/x/f.md".to_string() };
    assert_eq!(e.message(), "Path is not a directory: /x/f.md");
    let e = ScanError::ReadError { reason: "denied".to_string() };
    assert_eq!(e.message(), "Failed to read directory: denied");
}

#[test]
fn empty_directory_counts_zero() {
    let r = scan_ok(&[]);
    assert_eq!(r.total, 0);
    assert_eq!(r.added, 0);
    assert_eq!(r.skipped, 0);
    assert!(r.errors.is_empty());
}

#[test]
fn counts_md_and_markdown_regardless_of_others() {
    let r = scan_ok(&["one.md", "two.md", "three.md", "four.markdown", "five.markdown"]);
    assert_eq!(r.total, 5);
    let r = scan_ok(&[
        "one.md", "x.txt", "two.md", "README", "three.md", "four.markdown", "img.png",
        "five.markdown", ".hidden", "notes.mdx",
    ]);
    assert_eq!(r.total, 5);
}

#[test]
fn upper_case_extension_is_not_counted() {
    let r = scan_ok(&["X.MD", "Y.Markdown", "Z.MARKDOWN", "w.Md"]);
    assert_eq!(r.total, 0);
    assert!(!is_markdown_file_name(b"X.MD"));
}

#[test]
fn subdirectory_contents_are_not_counted() {
    // The listing holds the immediate entries only: the subdirectory `sub`
    // appears as itself, and the `d.md` inside it does not appear at all.
    let r = scan_ok(&["sub"]);
    assert_eq!(r.total, 0);
}

#[test]
fn mixed_directory_scenario() {
    let r = scan_ok(&["a.md", "b.markdown", "c.txt", "sub"]);
    assert_eq!(r.total, 2);
    assert_eq!(r.added, 0);
    assert_eq!(r.skipped, 0);
    assert!(r.errors.is_empty());
}

#[test]
fn scanning_twice_gives_same_total() {
    let names = ["a.md", "b.markdown", "c.txt", "d.md"];
    let first = scan_ok(&names);
    let second = scan_ok(&names);
    assert_eq!(first.total, second.total);
    let reordered = scan_ok(&["d.md", "c.txt", "b.markdown", "a.md"]);
    assert_eq!(first.total, reordered.total);
    assert_eq!(first.total, 3);
}

#[test]
fn unreadable_entries_are_passed_over() {
    let entries = vec![Some(b"a.md".to_vec()), None, Some(b"b.md".to_vec()), None];
    assert_eq!(count_markdown_entries(&entries), 2);
    let state = PathState::Directory { listing: Ok(entries) };
    let r = scan_directory_for_books("/books".to_string(), state).ok().unwrap();
    assert_eq!(r.total, 2);
    assert!(r.errors.is_empty());
}

#[test]
fn non_utf8_names_are_handled_as_bytes() {
    let entries = vec![Some(vec![0xff, 0xfe, b'.', b'm', b'd']), Some(vec![b'x', b'.', 0xff])];
    assert_eq!(count_markdown_entries(&entries), 1);
}

#[test]
fn extension_follows_last_dot() {
    assert_eq!(file_extension(b"notes.md"), Some(b"md".to_vec()));
    assert_eq!(file_extension(b"archive.tar.gz"), Some(b"gz".to_vec()));
    assert_eq!(file_extension(b"a.b.markdown"), Some(b"markdown".to_vec()));
    assert_eq!(file_extension(b"trailing."), Some(Vec::new()));
    assert_eq!(file_extension(b"..md"), Some(b"md".to_vec()));
}

#[test]
fn names_without_extension() {
    assert_eq!(file_extension(b"README"), None);
    assert_eq!(file_extension(b".bashrc"), None);
    assert_eq!(file_extension(b".md"), None);
    assert_eq!(file_extension(b".."), None);
    assert_eq!(file_extension(b"."), None);
    assert_eq!(file_extension(b""), None);
    assert!(!is_markdown_file_name(b".md"));
    assert!(!is_markdown_file_name(b".markdown"));
}

#[test]
fn dotfile_with_second_dot_has_extension() {
    assert_eq!(file_extension(b".notes.md"), Some(b"md".to_vec()));
    assert!(is_markdown_file_name(b".notes.md"));
}

#[test]
fn markdown_extension_is_exact() {
    assert!(is_markdown_extension(b"md"));
    assert!(is_markdown_extension(b"markdown"));
    assert!(!is_markdown_extension(b"MD"));
    assert!(!is_markdown_extension(b"mdx"));
    assert!(!is_markdown_extension(b"m"));
    assert!(!is_markdown_extension(b""));
    assert!(!is_markdown_extension(b"markdow"));
    assert!(!is_markdown_extension(b"txt"));
}

#[test]
fn new_result_is_empty() {
    let r = ScanResult::new();
    assert_eq!(r.total, 0);
    assert_eq!(r.added, 0);
    assert_eq!(r.skipped, 0);
    assert!(r.errors.is_empty());
}
