use rustyclaw::workspace::{bytes_in_order, names_in_order, FileInfo, Workspace};
use std::time::{Duration, SystemTime};

fn file(name: &str, size: u64) -> FileInfo {
    FileInfo {
        name: name.to_string(),
        size,
        modified: SystemTime::UNIX_EPOCH + Duration::from_secs(size),
    }
}

fn names(v: &[&str]) -> Vec<String> {
    v.iter().map(|s| s.to_string()).collect()
}

#[test]
fn a_workspace_knows_its_directory() {
    let w = Workspace::new("./workspace".to_string());
    assert_eq!(w.path(), "./workspace");
}

#[test]
fn a_request_without_a_name_is_untitled() {
    assert_eq!(Workspace::safe_name(Some("notes.md")), "notes.md");
    assert_eq!(Workspace::safe_name(None), "untitled.txt");
    assert_eq!(Workspace::safe_name(Some("a/b")), "untitled.txt");
    assert_eq!(Workspace::safe_name(Some("/")), "untitled.txt");
    assert_eq!(Workspace::safe_name(Some("a\\b")), "a\\b");
    assert_eq!(Workspace::listed_name(None), "unknown");
    assert_eq!(Workspace::listed_name(Some("a")), "a");
}

#[test]
fn numbered_names_carry_the_counter() {
    assert_eq!(Workspace::numbered_name("notes", "md", 1), "notes_1.md");
    assert_eq!(Workspace::numbered_name("untitled", "txt", 12), "untitled_12.txt");
}

#[test]
fn a_free_name_is_kept() {
    let taken = names(&["a.py", "b.py"]);
    assert_eq!(
        Workspace::free_name("c.py", Some("c"), Some("py"), &taken, 100),
        Some(("c.py".to_string(), 0))
    );
    assert_eq!(
        Workspace::free_name("c.py", Some("c"), Some("py"), &Vec::new(), 0),
        Some(("c.py".to_string(), 0))
    );
}

#[test]
fn a_taken_name_gets_the_least_free_counter() {
    let taken = names(&["a.py", "a_1.py", "a_3.py", "a_2.py"]);
    assert_eq!(
        Workspace::free_name("a.py", Some("a"), Some("py"), &taken, 100),
        Some(("a_4.py".to_string(), 4))
    );
    assert_eq!(Workspace::free_name("a.py", Some("a"), Some("py"), &taken, 3), None);
    assert_eq!(
        Workspace::free_name("a.py", Some("a"), Some("py"), &taken, 4),
        Some(("a_4.py".to_string(), 4))
    );
    assert_eq!(Workspace::free_name("a.py", Some("a"), Some("py"), &taken, 0), None);
}

#[test]
fn a_name_without_stem_or_extension_uses_the_defaults() {
    let taken = names(&["Makefile", "untitled_1.txt"]);
    assert_eq!(
        Workspace::free_name("Makefile", Some("Makefile"), None, &taken, 9),
        Some(("Makefile_1.txt".to_string(), 1))
    );
    assert_eq!(
        Workspace::free_name("Makefile", None, None, &taken, 9),
        Some(("untitled_2.txt".to_string(), 2))
    );
}

#[test]
fn the_record_describes_the_request() {
    assert_eq!(Workspace::file_description("a.py"), "Generated file: a.py");
}

#[test]
fn names_are_ordered_as_std_orders_strings() {
    let samples = ["", "a", "A", "ab", "b", "a.py", "a_1.py", "é", "z", "zz", "\u{1f980}", "~"];
    for a in samples {
        for b in samples {
            assert_eq!(names_in_order(a, b), a <= b, "{:?} {:?}", a, b);
            assert_eq!(bytes_in_order(a.as_bytes(), b.as_bytes()), a.as_bytes() <= b.as_bytes());
        }
    }
}

#[test]
fn files_are_sorted_by_name() {
    let listing =
        vec![file("b.txt", 2), file("a.txt", 1), file("c.txt", 3), file("B.txt", 4), file("é", 5)];
    let mut expected = listing.clone();
    expected.sort_by(|a, b| a.name.cmp(&b.name));
    let sorted = Workspace::sort_files(listing);
    let got: Vec<(String, u64, SystemTime)> =
        sorted.iter().map(|f| (f.name.clone(), f.size, f.modified)).collect();
    let want: Vec<(String, u64, SystemTime)> =
        expected.iter().map(|f| (f.name.clone(), f.size, f.modified)).collect();
    assert_eq!(got, want);
    assert_eq!(got[0].0, "B.txt");
    assert!(Workspace::sort_files(Vec::new()).is_empty());
}

#[test]
fn files_of_one_name_keep_their_order() {
    let listing = vec![file("x", 1), file("a", 2), file("x", 3), file("a", 4), file("x", 5)];
    let mut expected = listing.clone();
    expected.sort_by(|a, b| a.name.cmp(&b.name));
    let sorted = Workspace::sort_files(listing);
    let got: Vec<u64> = sorted.iter().map(|f| f.size).collect();
    let want: Vec<u64> = expected.iter().map(|f| f.size).collect();
    assert_eq!(got, want);
    assert_eq!(got, vec![2, 4, 1, 3, 5]);
}

#[test]
fn no_directory_of_the_request_survives() {
    for (asked, name) in [
        ("notes.md", "notes.md"),
        ("dir/sub/file.txt", "file.txt"),
        ("../../etc/passwd", "passwd"),
        ("/abs/olute", "olute"),
        ("a/", "a"),
        ("a/.", "a"),
        ("", "untitled.txt"),
        ("..", "untitled.txt"),
        ("a/..", "untitled.txt"),
        ("/", "untitled.txt"),
    ] {
        let got = Workspace::requested_name(asked);
        assert_eq!(got, name, "{:?}", asked);
        assert!(!got.contains('/'));
        let by_std = std::path::Path::new(asked).file_name().and_then(|n| n.to_str());
        assert_eq!(Workspace::file_name(asked).as_deref(), by_std, "{:?}", asked);
    }
}

#[test]
fn name_parts_agree_with_std() {
    for name in
        ["a.py", "a", ".bashrc", "a.tar.gz", "a.", "...", ".a.b", "x.y.", "Makefile", "é.tx", "-.-"]
    {
        let path = std::path::Path::new(name);
        assert_eq!(path.file_name().and_then(|n| n.to_str()), Some(name));
        let (stem, extension) = Workspace::name_parts(name);
        assert_eq!(Some(stem), path.file_stem().and_then(|s| s.to_str()), "{:?}", name);
        assert_eq!(extension, path.extension().and_then(|s| s.to_str()), "{:?}", name);
    }
    assert_eq!(Workspace::name_parts(".."), ("..", None));
    assert_eq!(Workspace::name_parts(""), ("", None));
    assert_eq!(Workspace::name_parts("."), (".", None));
}

#[test]
fn a_taken_name_is_numbered_between_stem_and_extension() {
    let taken = names(&["a.py", "a_1.py", "notes", ".env", "x.tar.gz"]);
    assert_eq!(Workspace::choose_name("a.py", &taken, 9), Some(("a_2.py".to_string(), 2)));
    assert_eq!(Workspace::choose_name("b.py", &taken, 9), Some(("b.py".to_string(), 0)));
    assert_eq!(Workspace::choose_name("notes", &taken, 9), Some(("notes_1.txt".to_string(), 1)));
    assert_eq!(Workspace::choose_name(".env", &taken, 9), Some((".env_1.txt".to_string(), 1)));
    assert_eq!(
        Workspace::choose_name("x.tar.gz", &taken, 9),
        Some(("x.tar_1.gz".to_string(), 1))
    );
    assert_eq!(Workspace::choose_name("a.py", &taken, 1), None);
}

#[test]
fn a_component_with_a_slash_names_no_file() {
    assert!(Workspace::plain_name("notes.md"));
    assert!(Workspace::plain_name(""));
    assert!(!Workspace::plain_name("a/b"));
    assert!(!Workspace::plain_name("/"));
    assert_eq!(Workspace::plain_component(Some("a.py".to_string())), Some("a.py".to_string()));
    assert_eq!(Workspace::plain_component(Some("a/b".to_string())), None);
    assert_eq!(Workspace::plain_component(Some("x/".to_string())), None);
    assert_eq!(Workspace::plain_component(None), None);
}
