//! Literal-name resolution over an in-memory fixture mirroring a search
//! tree of three roots `a`, `b`, `c`, each holding `bin`, `bin.exe` and
//! `bin.cmd`, plus a `w` root holding `win-bin.exe`.

use async_which::checker::{
    CheckerKind, CompositeChecker, ExecutableChecker, ExistedChecker, FileFacts, FileKind,
};
use async_which::engine::{which_all_in, which_in};
use async_which::finder::ResolveError;
use async_which::fs::FsSnapshot;
use async_which::platform::SearchConfig;

fn exec_file() -> FileFacts {
    FileFacts {
        followed: Some(FileKind::File),
        reported: Some(FileKind::File),
        access_exec: true,
    }
}

fn plain_file() -> FileFacts {
    FileFacts {
        followed: Some(FileKind::File),
        reported: Some(FileKind::File),
        access_exec: false,
    }
}

const PATHS: &str = "/t/a:/t/b:/t/c:/t/w";
const CWD: &str = "/t";

fn fixture() -> (SearchConfig, CompositeChecker, FsSnapshot) {
    let cfg = SearchConfig::unix();
    let checker = CompositeChecker::default_chain();
    let mut fs = FsSnapshot::empty();
    for d in ["a", "b", "c"] {
        for f in ["bin", "bin.exe", "bin.cmd"] {
            fs.record_file(format!("/t/{}/{}", d, f), exec_file());
        }
    }
    fs.record_file(String::from("/t/w/win-bin.exe"), exec_file());
    (cfg, checker, fs)
}

#[test]
fn test_which() {
    let (cfg, checker, fs) = fixture();
    let r = which_in(&cfg, "bin", Some(PATHS), Some(CWD), &checker, &fs);
    assert_eq!(r, Ok(String::from("/t/a/bin")));
}

#[test]
fn test_which_second() {
    let (cfg, checker, mut fs) = fixture();
    fs.record_file(String::from("/t/b/another"), exec_file());
    let r = which_in(&cfg, "another", Some(PATHS), Some(CWD), &checker, &fs);
    assert_eq!(r, Ok(String::from("/t/b/another")));
}

#[test]
fn test_which_not_found() {
    let (cfg, checker, fs) = fixture();
    let r = which_in(&cfg, "a", Some(PATHS), Some(CWD), &checker, &fs);
    assert_eq!(r, Err(ResolveError::NotFound));
}

#[test]
fn test_which_all() {
    let (cfg, checker, fs) = fixture();
    let r = which_all_in(&cfg, "bin", Some(PATHS), Some(CWD), &checker, &fs).unwrap();
    assert_eq!(
        r,
        vec![
            String::from("/t/a/bin"),
            String::from("/t/b/bin"),
            String::from("/t/c/bin"),
        ]
    );
}

#[test]
fn test_finder_find_matches_which_all() {
    let (cfg, checker, fs) = fixture();
    let f = async_which::finder::Finder::new();
    let r = f.find(&cfg, "bin", Some(PATHS), Some(CWD), &checker, &fs).unwrap();
    let all = which_all_in(&cfg, "bin", Some(PATHS), Some(CWD), &checker, &fs).unwrap();
    assert_eq!(r, all);
}

#[test]
fn test_which_all_empty_is_success() {
    let (cfg, checker, fs) = fixture();
    let r = which_all_in(&cfg, "missing", Some(PATHS), Some(CWD), &checker, &fs);
    assert_eq!(r, Ok(Vec::new()));
}

#[test]
fn test_which_absolute() {
    let (cfg, checker, fs) = fixture();
    let r = which_in(&cfg, "/t/b/bin", Some(PATHS), Some(CWD), &checker, &fs);
    assert_eq!(r, Ok(String::from("/t/b/bin")));
}

#[test]
fn test_which_absolute_extension() {
    let (cfg, checker, fs) = fixture();
    let r = which_in(&cfg, "/t/b/bin.exe", Some(PATHS), Some(CWD), &checker, &fs);
    assert_eq!(r, Ok(String::from("/t/b/bin.exe")));
}

#[test]
fn test_which_relative() {
    let (cfg, checker, fs) = fixture();
    let r = which_in(&cfg, "b/bin", Some(PATHS), Some(CWD), &checker, &fs);
    assert_eq!(r, Ok(String::from("/t/b/bin")));
}

#[test]
fn test_which_relative_extension() {
    let (cfg, checker, fs) = fixture();
    let r = which_in(&cfg, "b/bin.cmd", Some(PATHS), Some(CWD), &checker, &fs);
    assert_eq!(r, Ok(String::from("/t/b/bin.cmd")));
}

#[test]
fn test_which_relative_leading_dot() {
    let (cfg, checker, mut fs) = fixture();
    fs.record_file(String::from("/t/./b/bin"), exec_file());
    let r = which_in(&cfg, "./b/bin", Some(PATHS), Some(CWD), &checker, &fs);
    assert_eq!(r, Ok(String::from("/t/./b/bin")));
}

#[test]
fn test_which_non_executable() {
    // A file that exists but lacks execute permission is never returned.
    let (cfg, checker, mut fs) = fixture();
    fs.record_file(String::from("/t/b/another"), plain_file());
    let r = which_in(&cfg, "another", Some(PATHS), Some(CWD), &checker, &fs);
    assert_eq!(r, Err(ResolveError::NotFound));
}

#[test]
fn test_which_absolute_non_executable() {
    let (cfg, checker, mut fs) = fixture();
    fs.record_file(String::from("/t/b/another"), plain_file());
    let r = which_in(&cfg, "/t/b/another", Some(PATHS), Some(CWD), &checker, &fs);
    assert_eq!(r, Err(ResolveError::NotFound));
}

#[test]
fn test_which_relative_non_executable() {
    let (cfg, checker, mut fs) = fixture();
    fs.record_file(String::from("/t/b/another"), plain_file());
    let r = which_in(&cfg, "b/another", Some(PATHS), Some(CWD), &checker, &fs);
    assert_eq!(r, Err(ResolveError::NotFound));
}

#[test]
fn test_which_directory_not_returned() {
    // An entry that is a directory never satisfies the existence check.
    let (cfg, checker, mut fs) = fixture();
    fs.record_file(
        String::from("/t/a/sub"),
        FileFacts {
            followed: Some(FileKind::Directory),
            reported: Some(FileKind::Directory),
            access_exec: true,
        },
    );
    let r = which_in(&cfg, "sub", Some(PATHS), Some(CWD), &checker, &fs);
    assert_eq!(r, Err(ResolveError::NotFound));
}

#[test]
fn test_no_context_with_separator() {
    // A name with a separator needs a working directory, whatever roots
    // were supplied.
    let (cfg, checker, fs) = fixture();
    let r = which_in(&cfg, "b/bin", Some(PATHS), None, &checker, &fs);
    assert_eq!(r, Err(ResolveError::NoResolutionContext));
}

#[test]
fn test_no_context_without_roots() {
    // A bare name needs search roots, whatever working directory was
    // supplied.
    let (cfg, checker, fs) = fixture();
    let r = which_in(&cfg, "bin", None, Some(CWD), &checker, &fs);
    assert_eq!(r, Err(ResolveError::NoResolutionContext));
}

#[test]
fn test_priority_order() {
    // Roots a, b and c each hold a valid match; the first root wins.
    let (cfg, checker, fs) = fixture();
    let r = which_in(&cfg, "bin", Some(PATHS), Some(CWD), &checker, &fs).unwrap();
    assert!(r.starts_with("/t/a/"));
}

#[test]
fn test_idempotence() {
    let (cfg, checker, fs) = fixture();
    let r1 = which_in(&cfg, "bin", Some(PATHS), Some(CWD), &checker, &fs);
    let r2 = which_in(&cfg, "bin", Some(PATHS), Some(CWD), &checker, &fs);
    assert_eq!(r1, r2);
}

#[test]
fn test_first_match_heads_all_matches() {
    let (cfg, checker, fs) = fixture();
    let first = which_in(&cfg, "bin", Some(PATHS), Some(CWD), &checker, &fs).unwrap();
    let all = which_all_in(&cfg, "bin", Some(PATHS), Some(CWD), &checker, &fs).unwrap();
    assert_eq!(all[0], first);
}

#[test]
fn test_empty_composite_accepts_everything() {
    // With no member checkers the composite is a vacuous conjunction, so
    // the very first candidate is returned even though nothing was probed.
    let (cfg, _, fs) = fixture();
    let empty_chain = CompositeChecker::new();
    let r = which_in(&cfg, "ghost", Some(PATHS), Some(CWD), &empty_chain, &fs);
    assert_eq!(r, Ok(String::from("/t/a/ghost")));
}

#[test]
fn test_single_member_chain() {
    // A chain of only the existence checker accepts a non-executable file.
    let (cfg, _, mut fs) = fixture();
    let chain = CompositeChecker::new().add_checker(CheckerKind::Existed(ExistedChecker::new()));
    fs.record_file(String::from("/t/b/another"), plain_file());
    let r = which_in(&cfg, "another", Some(PATHS), Some(CWD), &chain, &fs);
    assert_eq!(r, Ok(String::from("/t/b/another")));
    let strict = CompositeChecker::new()
        .add_checker(CheckerKind::Existed(ExistedChecker::new()))
        .add_checker(CheckerKind::Executable(ExecutableChecker::new()));
    let r2 = which_in(&cfg, "another", Some(PATHS), Some(CWD), &strict, &fs);
    assert_eq!(r2, Err(ResolveError::NotFound));
}

#[test]
fn test_empty_path_list_segment() {
    // An empty segment of the path list stands for an empty root, so the
    // name joins onto it unchanged.
    let cfg = SearchConfig::unix();
    let checker = CompositeChecker::default_chain();
    let mut fs = FsSnapshot::empty();
    fs.record_file(String::from("bin"), exec_file());
    let r = which_in(&cfg, "bin", Some("/t/a::/t/b"), Some(CWD), &checker, &fs);
    assert_eq!(r, Ok(String::from("bin")));
}
