//! Case correction of a validated candidate path.
//!
//! On a platform whose file names compare case-insensitively, a candidate
//! that validated may still be spelled with different casing than the entry
//! on disk. The adapter replaces the candidate's file-name component with
//! the first directory entry matching it up to ASCII case. When the
//! directory cannot be listed, or no entry matches, the candidate is
//! returned unchanged — never an error. On a case-sensitive platform the
//! adapter is the identity.

use vstd::prelude::*;

use crate::fs::FsSnapshot;
use crate::path::{
    dir_prefix, dir_prefix_of, eq_ignore_case, file_name, file_name_of, first_index,
    lemma_first_index_absent, lemma_first_index_pin, str_eq_ignore_case,
};
use crate::platform::{case_insensitive, Platform};

verus! {

/// The predicate satisfied by names equal to `target` up to ASCII case.
pub open spec fn ci_pred(target: Seq<char>) -> spec_fn(Seq<char>) -> bool {
    |name: Seq<char>| eq_ignore_case(name, target)
}

/// `path` corrected against the listing `names` of its directory: the
/// directory prefix followed by the first listed name matching the
/// file-name component up to ASCII case, or `path` itself when none does.
pub open spec fn spec_correct_against(
    p: Platform,
    path: Seq<char>,
    names: Seq<Seq<char>>,
) -> Seq<char> {
    match first_index(names, ci_pred(file_name_of(p, path))) {
        Some(i) => dir_prefix_of(p, path) + names[i],
        None => path,
    }
}

/// `path` corrected against the snapshot: the identity on a case-sensitive
/// platform, and otherwise the correction against the recorded listing of
/// the candidate's directory — or the identity again when the snapshot has
/// no listing for it.
pub open spec fn spec_correct_casing(p: Platform, fs: FsSnapshot, path: Seq<char>) -> Seq<char> {
    if !case_insensitive(p) {
        path
    } else {
        match fs.spec_listing_at(dir_prefix_of(p, path)) {
            Some(names) => spec_correct_against(p, path, names),
            None => path,
        }
    }
}

/// Corrects `path` against one directory listing.
pub fn correct_against(p: Platform, path: &str, names: &Vec<String>) -> (r: String)
    ensures
        r@ == spec_correct_against(p, path@, names.deep_view()),
{
    let target = file_name(p, path);
    let n = names.len();
    let mut i: usize = 0;
    while i < n
        invariant
            i <= n,
            n == names@.len(),
            target@ == file_name_of(p, path@),
            forall|j: int|
                0 <= j < i ==> !eq_ignore_case((#[trigger] names@[j])@, target@),
        decreases n - i,
    {
        let name = &names[i];
        if str_eq_ignore_case(name.as_str(), target.as_str()) {
            proof {
                assert(names.deep_view()[i as int] == names@[i as int]@);
                assert forall|j: int| 0 <= j < i implies !ci_pred(target@)(
                    #[trigger] names.deep_view()[j],
                ) by {
                    assert(names.deep_view()[j] == names@[j]@);
                }
                lemma_first_index_pin(names.deep_view(), ci_pred(target@), i as int);
            }
            let r = dir_prefix(p, path).concat(name.as_str());
            return r;
        }
        i += 1;
    }
    proof {
        assert forall|j: int| 0 <= j < names.deep_view().len() implies !ci_pred(target@)(
            #[trigger] names.deep_view()[j],
        ) by {
            assert(names.deep_view()[j] == names@[j]@);
        }
        lemma_first_index_absent(names.deep_view(), ci_pred(target@));
    }
    String::from_str(path)
}

/// Corrects `path` against the snapshot's listing of its directory.
pub fn correct_casing(p: Platform, path: &str, fs: &FsSnapshot) -> (r: String)
    ensures
        r@ == spec_correct_casing(p, *fs, path@),
{
    if !p.is_case_insensitive() {
        return String::from_str(path);
    }
    let parent = dir_prefix(p, path);
    match fs.listing_at(parent.as_str()) {
        Some(names) => correct_against(p, path, names),
        None => String::from_str(path),
    }
}

} // verus!
