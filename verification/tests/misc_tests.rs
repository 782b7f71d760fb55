use rustisaur_stdlib::fs::path::{extension, file_name, join};
use rustisaur_stdlib::fs::watch::{file_event, ChangeKind, FileEvent};
use rustisaur_stdlib::text::decimal_string;
use rustisaur_stdlib::utils::math::random_int;
use rustisaur_stdlib::utils::string as ustr;
use rustisaur_stdlib::utils::table::{length, push, remove};

#[test]
fn path_join() {
    assert_eq!(join("a/b", "c.txt"), "a/b/c.txt");
    assert_eq!(join("a/b/", "c"), "a/b/c");
    assert_eq!(join("", "c"), "c");
    assert_eq!(join("a", "/etc/x"), "/etc/x");
    assert_eq!(join("a", ""), "a/");
    for (b, s) in [("a/b", "c.txt"), ("a/b/", "c"), ("", "c"), ("a", "/etc/x"), ("a", "")] {
        assert_eq!(join(b, s), std::path::Path::new(b).join(s).to_string_lossy());
    }
}

#[test]
fn path_file_names() {
    assert_eq!(file_name("/tmp/report.pdf"), Some("report.pdf".to_string()));
    assert_eq!(file_name("dir/sub/"), Some("sub".to_string()));
    assert_eq!(file_name("foo.txt/."), Some("foo.txt".to_string()));
    assert_eq!(file_name("a/.."), None);
    assert_eq!(file_name("/"), None);
    assert_eq!(file_name("."), None);
    assert_eq!(file_name(""), None);
    for p in ["/tmp/report.pdf", "dir/sub/", "foo.txt/.", "a/..", "/", ".", "", "./x//y"] {
        let expected = std::path::Path::new(p).file_name().map(|n| n.to_string_lossy().to_string());
        assert_eq!(file_name(p), expected);
    }
}

#[test]
fn path_extensions() {
    assert_eq!(extension("a/b.tar.gz"), Some("gz".to_string()));
    assert_eq!(extension(".bashrc"), None);
    assert_eq!(extension("noext"), None);
    assert_eq!(extension("x."), Some(String::new()));
    assert_eq!(extension("dir.d/"), Some("d".to_string()));
    for p in ["a/b.tar.gz", ".bashrc", "noext", "x.", "dir.d/", "..", "a/.x.y"] {
        let expected = std::path::Path::new(p).extension().map(|n| n.to_string_lossy().to_string());
        assert_eq!(extension(p), expected);
    }
}

#[test]
fn watcher_events() {
    assert!(matches!(file_event(ChangeKind::Create, "a".to_string()), Some(FileEvent::Created(p)) if p == "a"));
    assert!(matches!(file_event(ChangeKind::Modify, "b".to_string()), Some(FileEvent::Modified(p)) if p == "b"));
    assert!(matches!(file_event(ChangeKind::Remove, "c".to_string()), Some(FileEvent::Removed(p)) if p == "c"));
    assert!(file_event(ChangeKind::Other, "d".to_string()).is_none());
}

#[test]
fn decimal_numerals() {
    assert_eq!(decimal_string(0), "0");
    assert_eq!(decimal_string(8080), "8080");
    assert_eq!(decimal_string(u64::MAX), u64::MAX.to_string());
}

#[test]
fn random_integers_stay_in_range() {
    for _ in 0..100 {
        let r = random_int(-3, 3);
        assert!((-3..=3).contains(&r));
    }
    assert_eq!(random_int(7, 7), 7);
}

#[test]
fn string_utilities() {
    assert_eq!(ustr::upper("abc"), "ABC");
    assert_eq!(ustr::lower("ABC"), "abc");
    assert_eq!(ustr::split("1 2", " "), vec!["1", "2"]);
    assert_eq!(ustr::trim(" x "), "x");
    assert!(ustr::starts_with("rust", "ru"));
    assert!(ustr::ends_with("rust", "st"));
}

#[test]
fn table_utilities() {
    let mut v = vec![1, 2, 3];
    assert_eq!(length(&v), 3);
    push(&mut v, 4);
    assert_eq!(v, vec![1, 2, 3, 4]);
    assert_eq!(remove(&mut v, 1), Some(2));
    assert_eq!(v, vec![1, 3, 4]);
    assert_eq!(remove(&mut v, 3), None);
    assert_eq!(v, vec![1, 3, 4]);
}

#[test]
fn the_file_name_of_a_joined_path_is_the_joined_name() {
    for base in ["", "a", "a/", "/x/y", "."] {
        assert_eq!(file_name(&join(base, "report.txt")), Some("report.txt".to_string()));
    }
}
