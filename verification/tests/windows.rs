//! Windows-style resolution: executable-extension expansion and case
//! correction against on-disk directory entries.

use async_which::casing::correct_against;
use async_which::checker::{CompositeChecker, FileFacts, FileKind};
use async_which::engine::{which_all_in, which_in};
use async_which::finder::{Finder, ResolveError};
use async_which::fs::FsSnapshot;
use async_which::platform::{Platform, SearchConfig};

fn win_file() -> FileFacts {
    FileFacts {
        followed: Some(FileKind::File),
        reported: Some(FileKind::File),
        access_exec: false,
    }
}

#[test]
fn test_parse_ext_list() {
    let cfg = SearchConfig::windows(".COM;.EXE;.BAT");
    assert_eq!(cfg.exts, vec![".COM", ".EXE", ".BAT"]);
}

#[test]
fn test_parse_ext_list_malformed_entries_dropped() {
    // Entries not beginning with a dot are silently ignored, never fatal.
    let cfg = SearchConfig::windows("COM;.EXE;;x.y;.CMD");
    assert_eq!(cfg.exts, vec![".EXE", ".CMD"]);
}

#[test]
fn test_parse_ext_list_absent_value() {
    let cfg = SearchConfig::windows("");
    assert_eq!(cfg.exts, Vec::<String>::new());
}

#[test]
fn test_which_extension_order() {
    // "bin" with declared extensions [.EXE, .CMD]: the directory holds
    // bin.exe and bin.cmd but no bare bin; the first match carries .exe,
    // in declared order, case-corrected to the on-disk entry.
    let cfg = SearchConfig::windows(".EXE;.CMD");
    let checker = CompositeChecker::default_chain();
    let mut fs = FsSnapshot::empty();
    fs.record_file(String::from("C:\\d\\bin.EXE"), win_file());
    fs.record_file(String::from("C:\\d\\bin.CMD"), win_file());
    fs.record_dir(
        String::from("C:\\d\\"),
        vec![String::from("bin.cmd"), String::from("bin.exe")],
    );
    let r = which_in(&cfg, "bin", Some("C:\\d"), None, &checker, &fs);
    assert_eq!(r, Ok(String::from("C:\\d\\bin.exe")));
}

#[test]
fn test_which_no_extension_never_bare() {
    // A name without an extension never matches a bare on-disk file: only
    // the extension-appended candidates are tried.
    let cfg = SearchConfig::windows(".EXE");
    let checker = CompositeChecker::default_chain();
    let mut fs = FsSnapshot::empty();
    fs.record_file(String::from("C:\\w\\win-bin"), win_file());
    let r = which_in(&cfg, "win-bin", Some("C:\\w"), None, &checker, &fs);
    assert_eq!(r, Err(ResolveError::NotFound));
    fs.record_file(String::from("C:\\w\\win-bin.EXE"), win_file());
    let r2 = which_in(&cfg, "win-bin", Some("C:\\w"), None, &checker, &fs);
    assert_eq!(r2, Ok(String::from("C:\\w\\win-bin.EXE")));
}

#[test]
fn test_which_extension_already_recognized() {
    // A name already carrying a recognized extension is tried unchanged,
    // and nothing is appended to it.
    let cfg = SearchConfig::windows(".EXE;.CMD");
    let checker = CompositeChecker::default_chain();
    let mut fs = FsSnapshot::empty();
    fs.record_file(String::from("C:\\d\\bin.cmd"), win_file());
    let r = which_in(&cfg, "bin.cmd", Some("C:\\d"), None, &checker, &fs);
    assert_eq!(r, Ok(String::from("C:\\d\\bin.cmd")));
}

#[test]
fn test_which_extension_case_insensitive() {
    // The recognized-extension test ignores ASCII case: bin.EXE is left
    // unexpanded under a declared .exe.
    let cfg = SearchConfig::windows(".exe");
    let checker = CompositeChecker::default_chain();
    let mut fs = FsSnapshot::empty();
    fs.record_file(String::from("C:\\t\\b\\bin.EXE"), win_file());
    let r = which_in(&cfg, "b\\bin.EXE", Some("C:\\d"), Some("C:\\t"), &checker, &fs);
    assert_eq!(r, Ok(String::from("C:\\t\\b\\bin.EXE")));
}

#[test]
fn test_which_unrecognized_extension_expands() {
    // A name with some other extension is tried bare first, then with each
    // declared extension appended to the full name.
    let cfg = SearchConfig::windows(".EXE");
    let candidates =
        Finder::candidates(&cfg, "bin.foo", Some("C:\\d"), None).unwrap();
    assert_eq!(
        candidates,
        vec![String::from("C:\\d\\bin.foo"), String::from("C:\\d\\bin.foo.EXE")]
    );
}

#[test]
fn test_dotfile_has_no_extension() {
    // A file name beginning with its only dot has no extension, so only
    // the extension-appended candidates are generated.
    let cfg = SearchConfig::windows(".EXE");
    let candidates = Finder::candidates(&cfg, ".profile", Some("C:\\d"), None).unwrap();
    assert_eq!(candidates, vec![String::from("C:\\d\\.profile.EXE")]);
}

#[test]
fn test_case_correction() {
    // A candidate differing only in case from the on-disk entry resolves
    // to the entry's exact casing.
    let corrected = correct_against(
        Platform::Windows,
        "C:\\d\\BIN.EXE",
        &vec![String::from("other.txt"), String::from("bin.exe")],
    );
    assert_eq!(corrected, String::from("C:\\d\\bin.exe"));
}

#[test]
fn test_case_correction_no_match_keeps_path() {
    let corrected = correct_against(
        Platform::Windows,
        "C:\\d\\BIN.EXE",
        &vec![String::from("other.txt")],
    );
    assert_eq!(corrected, String::from("C:\\d\\BIN.EXE"));
}

#[test]
fn test_case_correction_unlistable_dir_keeps_path() {
    // When the snapshot has no listing for the candidate's directory the
    // validated path is returned unchanged, never an error.
    let cfg = SearchConfig::windows(".EXE");
    let checker = CompositeChecker::default_chain();
    let mut fs = FsSnapshot::empty();
    fs.record_file(String::from("C:\\d\\bin.EXE"), win_file());
    let r = which_in(&cfg, "bin", Some("C:\\d"), None, &checker, &fs);
    assert_eq!(r, Ok(String::from("C:\\d\\bin.EXE")));
}

#[test]
fn test_windows_symlink_accepted() {
    let cfg = SearchConfig::windows(".EXE");
    let checker = CompositeChecker::default_chain();
    let mut fs = FsSnapshot::empty();
    fs.record_file(
        String::from("C:\\d\\bin.EXE"),
        FileFacts {
            followed: None,
            reported: Some(FileKind::Symlink),
            access_exec: false,
        },
    );
    let r = which_in(&cfg, "bin", Some("C:\\d"), None, &checker, &fs);
    assert_eq!(r, Ok(String::from("C:\\d\\bin.EXE")));
}

#[test]
fn test_which_all_windows_expansion() {
    // Every root contributes its candidates in declared-extension order.
    let cfg = SearchConfig::windows(".EXE;.CMD");
    let checker = CompositeChecker::default_chain();
    let mut fs = FsSnapshot::empty();
    fs.record_file(String::from("C:\\a\\bin.EXE"), win_file());
    fs.record_file(String::from("C:\\a\\bin.CMD"), win_file());
    fs.record_file(String::from("C:\\b\\bin.CMD"), win_file());
    let r = which_all_in(&cfg, "bin", Some("C:\\a;C:\\b"), None, &checker, &fs).unwrap();
    assert_eq!(
        r,
        vec![
            String::from("C:\\a\\bin.EXE"),
            String::from("C:\\a\\bin.CMD"),
            String::from("C:\\b\\bin.CMD"),
        ]
    );
}
