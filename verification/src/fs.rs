//! A snapshot of filesystem observations, as plain values.
//!
//! The resolver never touches the filesystem: a host (or a test) probes it
//! and records what it saw — per-path facts and per-directory listings — in
//! an `FsSnapshot`. Resolution over a snapshot is then a pure, verified
//! function of the snapshot. A path or directory the snapshot does not
//! mention behaves like one whose probes failed: absent, unlistable.

use vstd::prelude::*;

use crate::checker::{absent_facts, FileFacts};
use crate::path::str_eq;

verus! {

/// The recorded facts for one path.
pub struct FsEntry {
    /// The path the probes were made on, exactly as the resolver builds it.
    pub path: String,
    /// What the probes reported.
    pub facts: FileFacts,
}

/// The recorded listing of one directory.
pub struct DirListing {
    /// The directory, written exactly as the prober named it: for case
    /// correction that is a candidate's directory prefix, trailing
    /// separator included; for a pattern scan it is the root as written in
    /// the search-path list.
    pub path: String,
    /// The file names of the directory's children, in listing order.
    pub names: Vec<String>,
}

/// The facts recorded for `p`: those of the first entry for `p`, or the
/// absent facts when no entry mentions it.
pub open spec fn spec_lookup_facts(entries: Seq<FsEntry>, p: Seq<char>) -> FileFacts
    decreases entries.len(),
{
    if entries.len() == 0 {
        absent_facts()
    } else if entries[0].path@ == p {
        entries[0].facts
    } else {
        spec_lookup_facts(entries.drop_first(), p)
    }
}

/// A prefix without a match does not change a facts lookup.
pub proof fn lemma_lookup_facts_skip(entries: Seq<FsEntry>, p: Seq<char>, i: int)
    requires
        0 <= i <= entries.len(),
        forall|j: int| 0 <= j < i ==> (#[trigger] entries[j]).path@ != p,
    ensures
        spec_lookup_facts(entries, p) == spec_lookup_facts(entries.skip(i), p),
    decreases i,
{
    if i > 0 {
        lemma_lookup_facts_skip(entries, p, i - 1);
        assert(entries.skip(i - 1)[0] == entries[i - 1]);
        assert(entries.skip(i - 1).drop_first() =~= entries.skip(i));
    } else {
        assert(entries.skip(0) =~= entries);
    }
}

/// The listing recorded for directory `d`: the names of the first listing
/// for `d`, or `None` when no listing mentions it.
pub open spec fn spec_lookup_listing(dirs: Seq<DirListing>, d: Seq<char>) -> Option<Seq<Seq<char>>>
    decreases dirs.len(),
{
    if dirs.len() == 0 {
        None
    } else if dirs[0].path@ == d {
        Some(dirs[0].names.deep_view())
    } else {
        spec_lookup_listing(dirs.drop_first(), d)
    }
}

/// A prefix without a match does not change a listing lookup.
pub proof fn lemma_lookup_listing_skip(dirs: Seq<DirListing>, d: Seq<char>, i: int)
    requires
        0 <= i <= dirs.len(),
        forall|j: int| 0 <= j < i ==> (#[trigger] dirs[j]).path@ != d,
    ensures
        spec_lookup_listing(dirs, d) == spec_lookup_listing(dirs.skip(i), d),
    decreases i,
{
    if i > 0 {
        lemma_lookup_listing_skip(dirs, d, i - 1);
        assert(dirs.skip(i - 1)[0] == dirs[i - 1]);
        assert(dirs.skip(i - 1).drop_first() =~= dirs.skip(i));
    } else {
        assert(dirs.skip(0) =~= dirs);
    }
}

/// Everything a host observed of the filesystem, as one value.
pub struct FsSnapshot {
    /// The probed facts, one entry per probed path.
    pub files: Vec<FsEntry>,
    /// The recorded directory listings.
    pub dirs: Vec<DirListing>,
}

impl FsSnapshot {
    /// The facts this snapshot records for `p`.
    pub open spec fn spec_facts_at(self, p: Seq<char>) -> FileFacts {
        spec_lookup_facts(self.files@, p)
    }

    /// The listing this snapshot records for directory `d`.
    pub open spec fn spec_listing_at(self, d: Seq<char>) -> Option<Seq<Seq<char>>> {
        spec_lookup_listing(self.dirs@, d)
    }

    /// A snapshot that observed nothing.
    pub fn empty() -> (r: FsSnapshot)
        ensures
            r.files@.len() == 0,
            r.dirs@.len() == 0,
    {
        FsSnapshot { files: Vec::new(), dirs: Vec::new() }
    }

    /// Records the facts of one probed path.
    pub fn record_file(&mut self, path: String, facts: FileFacts)
        ensures
            final(self).files@ == old(self).files@.push(
                FsEntry { path, facts },
            ),
            final(self).dirs@ == old(self).dirs@,
    {
        self.files.push(FsEntry { path, facts });
    }

    /// Records the listing of one directory.
    pub fn record_dir(&mut self, path: String, names: Vec<String>)
        ensures
            final(self).dirs@ == old(self).dirs@.push(
                DirListing { path, names },
            ),
            final(self).files@ == old(self).files@,
    {
        self.dirs.push(DirListing { path, names });
    }

    /// Looks up the facts recorded for `p`.
    pub fn facts_at(&self, p: &str) -> (r: FileFacts)
        ensures
            r == self.spec_facts_at(p@),
    {
        let n = self.files.len();
        let mut i: usize = 0;
        while i < n
            invariant
                i <= n,
                n == self.files@.len(),
                forall|j: int| 0 <= j < i ==> (#[trigger] self.files@[j]).path@ != p@,
            decreases n - i,
        {
            let entry = &self.files[i];
            if str_eq(entry.path.as_str(), p) {
                proof {
                    lemma_lookup_facts_skip(self.files@, p@, i as int);
                    assert(self.files@.skip(i as int)[0] == self.files@[i as int]);
                }
                return entry.facts;
            }
            i += 1;
        }
        proof {
            lemma_lookup_facts_skip(self.files@, p@, n as int);
            assert(self.files@.skip(n as int).len() == 0);
        }
        FileFacts::absent()
    }

    /// Looks up the listing recorded for directory `d`.
    pub fn listing_at(&self, d: &str) -> (r: Option<&Vec<String>>)
        ensures
            match r {
                Some(names) => self.spec_listing_at(d@) == Some(names.deep_view()),
                None => self.spec_listing_at(d@) is None,
            },
    {
        let n = self.dirs.len();
        let mut i: usize = 0;
        while i < n
            invariant
                i <= n,
                n == self.dirs@.len(),
                forall|j: int| 0 <= j < i ==> (#[trigger] self.dirs@[j]).path@ != d@,
            decreases n - i,
        {
            let listing = &self.dirs[i];
            if str_eq(listing.path.as_str(), d) {
                proof {
                    lemma_lookup_listing_skip(self.dirs@, d@, i as int);
                    assert(self.dirs@.skip(i as int)[0] == self.dirs@[i as int]);
                }
                return Some(&listing.names);
            }
            i += 1;
        }
        proof {
            lemma_lookup_listing_skip(self.dirs@, d@, n as int);
            assert(self.dirs@.skip(n as int).len() == 0);
        }
        None
    }
}

} // verus!
