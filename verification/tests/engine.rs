//! The pull-based resolution engine: laziness, cancellation, and the
//! sandbox extension policy.

use async_which::checker::{CompositeChecker, FileFacts, FileKind};
use async_which::engine::{which_in, Resolution};
use async_which::finder::Finder;
use async_which::fs::FsSnapshot;
use async_which::platform::SearchConfig;

fn exec_file() -> FileFacts {
    FileFacts {
        followed: Some(FileKind::File),
        reported: Some(FileKind::File),
        access_exec: true,
    }
}

/// Drives the engine until the first emission, counting probes.
fn probes_until_first(
    cfg: &SearchConfig,
    name: &str,
    paths: &str,
    checker: &CompositeChecker,
    fs: &FsSnapshot,
) -> (Option<String>, usize) {
    let mut res = Resolution::start(cfg, name, Some(paths), None).unwrap();
    let mut probes: usize = 0;
    loop {
        let cand = match res.peek() {
            Some(c) => c.clone(),
            None => return (None, probes),
        };
        probes += 1;
        let facts = fs.facts_at(cand.as_str());
        if let Some(found) = res.step(checker, &facts) {
            return (Some(found), probes);
        }
    }
}

#[test]
fn test_cancellation_bounds_probes() {
    // Consuming only the first element of the search must not probe the
    // whole search space: with the match under the first root, exactly one
    // probe happens even though three roots were supplied.
    let cfg = SearchConfig::unix();
    let checker = CompositeChecker::default_chain();
    let mut fs = FsSnapshot::empty();
    fs.record_file(String::from("/t/a/bin"), exec_file());
    fs.record_file(String::from("/t/b/bin"), exec_file());
    fs.record_file(String::from("/t/c/bin"), exec_file());
    let (found, probes) = probes_until_first(&cfg, "bin", "/t/a:/t/b:/t/c", &checker, &fs);
    assert_eq!(found, Some(String::from("/t/a/bin")));
    assert_eq!(probes, 1);
}

#[test]
fn test_probe_count_tracks_first_valid_index() {
    // With the only match under the last root, every earlier candidate is
    // probed exactly once.
    let cfg = SearchConfig::unix();
    let checker = CompositeChecker::default_chain();
    let mut fs = FsSnapshot::empty();
    fs.record_file(String::from("/t/c/bin"), exec_file());
    let (found, probes) = probes_until_first(&cfg, "bin", "/t/a:/t/b:/t/c", &checker, &fs);
    assert_eq!(found, Some(String::from("/t/c/bin")));
    assert_eq!(probes, 3);
}

#[test]
fn test_engine_exhaustion() {
    let cfg = SearchConfig::unix();
    let checker = CompositeChecker::default_chain();
    let fs = FsSnapshot::empty();
    let (found, probes) = probes_until_first(&cfg, "bin", "/t/a:/t/b", &checker, &fs);
    assert_eq!(found, None);
    assert_eq!(probes, 2);
}

#[test]
fn test_engine_position_advances_one_per_step() {
    let cfg = SearchConfig::unix();
    let checker = CompositeChecker::default_chain();
    let fs = FsSnapshot::empty();
    let mut res = Resolution::start(&cfg, "bin", Some("/t/a:/t/b"), None).unwrap();
    assert_eq!(res.position(), 0);
    let cand = res.peek().unwrap().clone();
    let facts = fs.facts_at(cand.as_str());
    res.step(&checker, &facts);
    assert_eq!(res.position(), 1);
}

#[test]
fn test_sandbox_suffix_appended() {
    // The sandbox tries the bare path, then the path with the canonical
    // suffix appended.
    let cfg = SearchConfig::sandbox("wasm");
    let candidates = Finder::candidates(&cfg, "bin", Some("/t/a"), None).unwrap();
    assert_eq!(
        candidates,
        vec![String::from("/t/a/bin"), String::from("/t/a/bin.wasm")]
    );
}

#[test]
fn test_sandbox_suffix_appended_after_extension() {
    // The suffix is appended after the full name: an existing extension is
    // kept, never replaced.
    let cfg = SearchConfig::sandbox("wasm");
    let candidates = Finder::candidates(&cfg, "bin.foo", Some("/t/a"), None).unwrap();
    assert_eq!(
        candidates,
        vec![String::from("/t/a/bin.foo"), String::from("/t/a/bin.foo.wasm")]
    );
}

#[test]
fn test_sandbox_resolution() {
    let cfg = SearchConfig::sandbox("wasm");
    let checker = CompositeChecker::default_chain();
    let mut fs = FsSnapshot::empty();
    fs.record_file(String::from("/t/a/bin.wasm"), exec_file());
    let r = which_in(&cfg, "bin", Some("/t/a"), None, &checker, &fs);
    assert_eq!(r, Ok(String::from("/t/a/bin.wasm")));
}

#[test]
fn test_unix_candidates_are_joined_roots() {
    let cfg = SearchConfig::unix();
    let candidates = Finder::candidates(&cfg, "bin", Some("/x::/y/"), None).unwrap();
    assert_eq!(
        candidates,
        vec![
            String::from("/x/bin"),
            String::from("bin"),
            String::from("/y/bin"),
        ]
    );
}

#[test]
fn test_cwd_mode_keeps_absolute_name() {
    let cfg = SearchConfig::unix();
    let candidates = Finder::candidates(&cfg, "/abs/bin", Some("/x"), Some("/t")).unwrap();
    assert_eq!(candidates, vec![String::from("/abs/bin")]);
}
