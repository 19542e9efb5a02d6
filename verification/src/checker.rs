//! Validity checking of candidate paths.
//!
//! A checker decides whether a candidate path is an acceptable result. The
//! filesystem's answers about a path arrive as a plain `FileFacts` value —
//! the host performs the probes, and a probe that fails is reported as
//! "absent" or "not executable", never as an error — so the decision itself
//! is a pure, verified function. The deployed chain is a composite that
//! requires every member checker to accept.

use vstd::prelude::*;

use crate::platform::Platform;

verus! {

/// What a metadata probe reported a path to be.
#[derive(Clone, Copy, PartialEq, Eq, Structural, Debug)]
pub enum FileKind {
    /// A regular file.
    File,
    /// A directory.
    Directory,
    /// A symbolic link (from a probe that does not follow links).
    Symlink,
    /// Anything else the platform distinguishes.
    Other,
}

/// The filesystem's answers for one candidate path. A probe that failed
/// (permission denied, transient error, missing entry) is recorded as `None`
/// or `false`: errors are absorbed as "invalid", never surfaced.
#[derive(Clone, Copy, Debug)]
pub struct FileFacts {
    /// What the path is with symbolic links followed.
    pub followed: Option<FileKind>,
    /// What the directory entry itself is, links not followed.
    pub reported: Option<FileKind>,
    /// Whether the process has execute permission on the path.
    pub access_exec: bool,
}

/// The facts describing a path that no probe could observe.
pub open spec fn absent_facts() -> FileFacts {
    FileFacts { followed: None, reported: None, access_exec: false }
}

impl FileFacts {
    /// The facts describing a path that no probe could observe.
    pub fn absent() -> (r: FileFacts)
        ensures
            r == absent_facts(),
    {
        FileFacts { followed: None, reported: None, access_exec: false }
    }
}

/// A validity check over a candidate path, decided from its probed facts.
pub trait Checker {
    /// Whether this checker accepts a path whose probes reported `facts`.
    spec fn accepts(&self, p: Platform, facts: FileFacts) -> bool;

    /// Decides validity from the probed facts.
    fn is_valid(&self, p: Platform, facts: &FileFacts) -> (r: bool)
        ensures
            r == self.accepts(p, *facts),
    ;
}

/// Accepts a path the process may execute. On Windows there is no execute
/// permission to check, so every path is accepted.
pub struct ExecutableChecker;

impl ExecutableChecker {
    /// A new executable-permission checker.
    pub fn new() -> (r: ExecutableChecker) {
        ExecutableChecker
    }
}

impl Checker for ExecutableChecker {
    open spec fn accepts(&self, p: Platform, facts: FileFacts) -> bool {
        match p {
            Platform::Windows => true,
            _ => facts.access_exec,
        }
    }

    fn is_valid(&self, p: Platform, facts: &FileFacts) -> (r: bool) {
        match p {
            Platform::Windows => true,
            _ => facts.access_exec,
        }
    }
}

/// Accepts a path that refers to a regular file. On Windows the entry
/// itself is consulted, links not followed, and a symbolic link is also
/// accepted; elsewhere links are followed and must lead to a regular file.
pub struct ExistedChecker;

impl ExistedChecker {
    /// A new existence checker.
    pub fn new() -> (r: ExistedChecker) {
        ExistedChecker
    }
}

impl Checker for ExistedChecker {
    open spec fn accepts(&self, p: Platform, facts: FileFacts) -> bool {
        match p {
            Platform::Windows => facts.reported == Some(FileKind::File) || facts.reported == Some(
                FileKind::Symlink,
            ),
            _ => facts.followed == Some(FileKind::File),
        }
    }

    fn is_valid(&self, p: Platform, facts: &FileFacts) -> (r: bool) {
        match p {
            Platform::Windows => matches!(facts.reported, Some(FileKind::File))
                || matches!(facts.reported, Some(FileKind::Symlink)),
            _ => matches!(facts.followed, Some(FileKind::File)),
        }
    }
}

/// The closed set of checkers a composite can hold.
pub enum CheckerKind {
    /// An execute-permission check.
    Executable(ExecutableChecker),
    /// An existence check.
    Existed(ExistedChecker),
}

impl Checker for CheckerKind {
    open spec fn accepts(&self, p: Platform, facts: FileFacts) -> bool {
        match self {
            CheckerKind::Executable(c) => c.accepts(p, facts),
            CheckerKind::Existed(c) => c.accepts(p, facts),
        }
    }

    fn is_valid(&self, p: Platform, facts: &FileFacts) -> (r: bool) {
        match self {
            CheckerKind::Executable(c) => c.is_valid(p, facts),
            CheckerKind::Existed(c) => c.is_valid(p, facts),
        }
    }
}

/// An ordered collection of checkers that accepts a path exactly when every
/// member accepts it.
pub struct CompositeChecker {
    checkers: Vec<CheckerKind>,
}

impl CompositeChecker {
    /// The member checkers, in the order they were added.
    pub closed spec fn members(&self) -> Seq<CheckerKind> {
        self.checkers@
    }

    /// An empty composite, which accepts everything.
    pub fn new() -> (r: CompositeChecker)
        ensures
            r.members() == Seq::<CheckerKind>::empty(),
    {
        let r = CompositeChecker { checkers: Vec::new() };
        proof {
            assert(r.members() =~= Seq::<CheckerKind>::empty());
        }
        r
    }

    /// The composite extended with one more checker.
    pub fn add_checker(self, checker: CheckerKind) -> (r: CompositeChecker)
        ensures
            r.members() == self.members().push(checker),
    {
        let mut checkers = self.checkers;
        checkers.push(checker);
        CompositeChecker { checkers }
    }

    /// The deployed default chain: execute permission and existence.
    pub fn default_chain() -> (r: CompositeChecker)
        ensures
            r.members() =~= seq![
                CheckerKind::Executable(ExecutableChecker),
                CheckerKind::Existed(ExistedChecker),
            ],
    {
        CompositeChecker::new().add_checker(CheckerKind::Executable(ExecutableChecker::new()))
            .add_checker(CheckerKind::Existed(ExistedChecker::new()))
    }
}

impl Checker for CompositeChecker {
    open spec fn accepts(&self, p: Platform, facts: FileFacts) -> bool {
        forall|i: int|
            0 <= i < self.members().len() ==> (#[trigger] self.members()[i]).accepts(p, facts)
    }

    fn is_valid(&self, p: Platform, facts: &FileFacts) -> (r: bool) {
        let n = self.checkers.len();
        let mut i: usize = 0;
        while i < n
            invariant
                i <= n,
                n == self.members().len(),
                forall|j: int| 0 <= j < i ==> (#[trigger] self.members()[j]).accepts(p, *facts),
            decreases n - i,
        {
            if !self.checkers[i].is_valid(p, facts) {
                return false;
            }
            i += 1;
        }
        true
    }
}

} // verus!
