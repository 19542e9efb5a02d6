//! Pattern-mode lookup: matching listed file names against a compiled
//! regular expression across several roots.

use async_which::checker::{CompositeChecker, FileFacts, FileKind};
use async_which::fs::FsSnapshot;
use async_which::pattern::{which_re_in, Pattern};
use async_which::platform::SearchConfig;

fn exec_file() -> FileFacts {
    FileFacts {
        followed: Some(FileKind::File),
        reported: Some(FileKind::File),
        access_exec: true,
    }
}

fn re_fixture() -> (SearchConfig, CompositeChecker, FsSnapshot) {
    let cfg = SearchConfig::unix();
    let checker = CompositeChecker::default_chain();
    let mut fs = FsSnapshot::empty();
    fs.record_dir(
        String::from("/t/a"),
        vec![String::from("bin_0"), String::from("other")],
    );
    fs.record_dir(String::from("/t/b"), vec![String::from("bin_1")]);
    fs.record_file(String::from("/t/a/bin_0"), exec_file());
    fs.record_file(String::from("/t/a/other"), exec_file());
    fs.record_file(String::from("/t/b/bin_1"), exec_file());
    (cfg, checker, fs)
}

#[test]
fn test_which_re_in_with_matches() {
    let (cfg, checker, fs) = re_fixture();
    let re = Pattern::new(r"bin_\d").unwrap();
    let r = which_re_in(&re, &cfg, "/t/a:/t/b", &checker, &fs);
    assert_eq!(
        r,
        vec![String::from("/t/a/bin_0"), String::from("/t/b/bin_1")]
    );
}

#[test]
fn test_which_re_in_without_matches() {
    let (cfg, checker, fs) = re_fixture();
    let re = Pattern::new(r"bi[^n]").unwrap();
    let r = which_re_in(&re, &cfg, "/t/a:/t/b", &checker, &fs);
    assert_eq!(r, Vec::<String>::new());
}

#[test]
fn test_which_re_excludes_invalid_entries() {
    // A listed name that matches the pattern but whose path fails the
    // checker chain is not emitted.
    let (cfg, checker, mut fs) = re_fixture();
    fs.record_dir(String::from("/t/c"), vec![String::from("bin_9")]);
    let r = which_re_in(&re(r"bin_\d"), &cfg, "/t/a:/t/b:/t/c", &checker, &fs);
    assert_eq!(
        r,
        vec![String::from("/t/a/bin_0"), String::from("/t/b/bin_1")]
    );
}

#[test]
fn test_which_re_unlistable_root_skipped() {
    // A root the snapshot has no listing for contributes nothing and does
    // not abort the scan.
    let (cfg, checker, fs) = re_fixture();
    let r = which_re_in(&re(r"bin_\d"), &cfg, "/t/missing:/t/b", &checker, &fs);
    assert_eq!(r, vec![String::from("/t/b/bin_1")]);
}

#[test]
fn test_which_re_matches_dot() {
    // The pattern "." matches any nonempty name.
    let (cfg, checker, fs) = re_fixture();
    let r = which_re_in(&re(r"."), &cfg, "/t/b", &checker, &fs);
    assert_eq!(r, vec![String::from("/t/b/bin_1")]);
}

#[test]
fn test_finder_find_re() {
    let (cfg, checker, fs) = re_fixture();
    let f = async_which::finder::Finder::new();
    let r = f.find_re(&re(r"bin_\d"), &cfg, "/t/a:/t/b", &checker, &fs);
    assert_eq!(
        r,
        vec![String::from("/t/a/bin_0"), String::from("/t/b/bin_1")]
    );
}

#[test]
fn test_pattern_invalid_syntax() {
    assert!(Pattern::new(r"bin(").is_none());
}

fn re(src: &str) -> Pattern {
    Pattern::new(src).unwrap()
}
