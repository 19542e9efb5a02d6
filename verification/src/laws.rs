//! The resolver's guarantees, stated and proved as laws over the spec-level
//! models that the executable functions' contracts are written against.

use vstd::prelude::*;

use crate::casing::{ci_pred, spec_correct_casing};
use crate::checker::{absent_facts, Checker, CheckerKind, CompositeChecker, ExecutableChecker};
use crate::engine::{accept_pred, correct_fn, spec_all_matches, spec_first_match};
use crate::finder::{
    append_ext_to, join_name, spec_candidates, spec_expand_all, spec_expand_one, ResolveError,
};
use crate::fs::FsSnapshot;
use crate::path::{
    dir_prefix_of, eq_ignore_case, file_name_of, first_index, has_sep, lemma_first_index,
    lemma_first_index_pin, spec_join, spec_split,
};
use crate::platform::{case_insensitive, list_delimiter, Platform, SearchConfig};

verus! {

/// A literal name containing a separator cannot be resolved without a
/// working directory: whatever search roots were supplied, the resolution
/// fails with the structural error.
pub proof fn lemma_separator_needs_cwd(
    cfg: SearchConfig,
    name: Seq<char>,
    paths: Option<Seq<char>>,
    checker: CompositeChecker,
    fs: FsSnapshot,
)
    requires
        has_sep(cfg.platform, name),
    ensures
        spec_first_match(cfg, name, paths, None, checker, fs) == Err::<Seq<char>, ResolveError>(
            ResolveError::NoResolutionContext,
        ),
        spec_all_matches(cfg, name, paths, None, checker, fs) == Err::<Seq<Seq<char>>, ResolveError>(
            ResolveError::NoResolutionContext,
        ),
{
}

/// A bare literal name cannot be resolved without search roots: whatever
/// working directory was supplied, the resolution fails with the structural
/// error.
pub proof fn lemma_bare_name_needs_roots(
    cfg: SearchConfig,
    name: Seq<char>,
    cwd: Option<Seq<char>>,
    checker: CompositeChecker,
    fs: FsSnapshot,
)
    requires
        !has_sep(cfg.platform, name),
    ensures
        spec_first_match(cfg, name, None, cwd, checker, fs) == Err::<Seq<char>, ResolveError>(
            ResolveError::NoResolutionContext,
        ),
        spec_all_matches(cfg, name, None, cwd, checker, fs) == Err::<Seq<Seq<char>>, ResolveError>(
            ResolveError::NoResolutionContext,
        ),
{
}

/// On Unix the extension policy is the identity: expansion neither adds nor
/// removes candidates.
pub proof fn lemma_expand_all_unix(cfg: SearchConfig, bases: Seq<Seq<char>>)
    requires
        cfg.platform == Platform::Unix,
    ensures
        spec_expand_all(cfg, bases) == bases,
    decreases bases.len(),
{
    if bases.len() == 0 {
        assert(spec_expand_all(cfg, bases) =~~= bases);
    } else {
        lemma_expand_all_unix(cfg, bases.drop_first());
        assert(spec_expand_all(cfg, bases) =~~= bases);
    }
}

/// Priority order: for a bare name searched on Unix, when the roots up to
/// index `i` hold no valid candidate and the candidate under root `i` is
/// valid, the first match is exactly the candidate under root `i` — earlier
/// roots always win.
pub proof fn lemma_priority_order(
    cfg: SearchConfig,
    name: Seq<char>,
    paths: Seq<char>,
    cwd: Option<Seq<char>>,
    checker: CompositeChecker,
    fs: FsSnapshot,
    i: int,
)
    requires
        cfg.platform == Platform::Unix,
        !has_sep(cfg.platform, name),
        0 <= i < spec_split(paths, list_delimiter(cfg.platform)).len(),
        checker.accepts(
            Platform::Unix,
            fs.spec_facts_at(
                spec_join(
                    Platform::Unix,
                    spec_split(paths, list_delimiter(cfg.platform))[i],
                    name,
                ),
            ),
        ),
        forall|j: int|
            0 <= j < i ==> !checker.accepts(
                Platform::Unix,
                fs.spec_facts_at(
                    spec_join(
                        Platform::Unix,
                        #[trigger] spec_split(paths, list_delimiter(cfg.platform))[j],
                        name,
                    ),
                ),
            ),
    ensures
        spec_first_match(cfg, name, Some(paths), cwd, checker, fs) == Ok::<Seq<char>, ResolveError>(
            spec_join(Platform::Unix, spec_split(paths, list_delimiter(cfg.platform))[i], name),
        ),
{
    let roots = spec_split(paths, list_delimiter(cfg.platform));
    let bases = roots.map_values(join_name(cfg.platform, name));
    lemma_expand_all_unix(cfg, bases);
    let cs = bases;
    let pred = accept_pred(cfg.platform, checker, fs);
    assert(cs[i] == spec_join(Platform::Unix, roots[i], name));
    assert(pred(cs[i]));
    assert forall|j: int| 0 <= j < i implies !pred(cs[j]) by {
        assert(cs[j] == spec_join(Platform::Unix, roots[j], name));
    }
    lemma_first_index_pin(cs, pred, i);
    assert(!case_insensitive(cfg.platform));
    assert(spec_correct_casing(cfg.platform, fs, cs[i]) == cs[i]);
}

/// When every candidate expanded from every base fails the predicate, so
/// does every candidate of the whole expansion.
proof fn lemma_expand_all_none_accepted(
    cfg: SearchConfig,
    bases: Seq<Seq<char>>,
    pred: spec_fn(Seq<char>) -> bool,
)
    requires
        forall|j: int, k: int|
            0 <= j < bases.len() && 0 <= k < spec_expand_one(cfg, #[trigger] bases[j]).len()
                ==> !pred(#[trigger] spec_expand_one(cfg, bases[j])[k]),
    ensures
        forall|idx: int|
            0 <= idx < spec_expand_all(cfg, bases).len() ==> !pred(
                #[trigger] spec_expand_all(cfg, bases)[idx],
            ),
    decreases bases.len(),
{
    if bases.len() > 0 {
        assert forall|j: int, k: int|
            0 <= j < bases.drop_first().len() && 0 <= k < spec_expand_one(
                cfg,
                #[trigger] bases.drop_first()[j],
            ).len() implies !pred(#[trigger] spec_expand_one(cfg, bases.drop_first()[j])[k]) by {
            assert(bases.drop_first()[j] == bases[j + 1]);
        }
        lemma_expand_all_none_accepted(cfg, bases.drop_first(), pred);
        let head = spec_expand_one(cfg, bases[0]);
        let rest = spec_expand_all(cfg, bases.drop_first());
        assert forall|idx: int| 0 <= idx < spec_expand_all(cfg, bases).len() implies !pred(
            #[trigger] spec_expand_all(cfg, bases)[idx],
        ) by {
            if idx < head.len() {
                assert(spec_expand_all(cfg, bases)[idx] == head[idx]);
            } else {
                assert(spec_expand_all(cfg, bases)[idx] == rest[idx - head.len()]);
            }
        }
    }
}

/// Priority order, on every platform: for a bare name searched on the
/// roots of the path list, when no candidate expanded under a root before
/// index `i` is valid, and the candidate at inner index `k` of root `i`'s
/// expansion is the first valid one there, the first match is exactly that
/// candidate, case-corrected — an earlier root always wins, and within one
/// root the expansion order decides.
pub proof fn lemma_priority_order_by_root(
    cfg: SearchConfig,
    name: Seq<char>,
    paths: Seq<char>,
    cwd: Option<Seq<char>>,
    checker: CompositeChecker,
    fs: FsSnapshot,
    i: int,
    k: int,
)
    requires
        !has_sep(cfg.platform, name),
        0 <= i < spec_split(paths, list_delimiter(cfg.platform)).len(),
        ({
            let bases = spec_split(paths, list_delimiter(cfg.platform)).map_values(
                join_name(cfg.platform, name),
            );
            let pred = accept_pred(cfg.platform, checker, fs);
            &&& 0 <= k < spec_expand_one(cfg, bases[i]).len()
            &&& pred(spec_expand_one(cfg, bases[i])[k])
            &&& forall|m: int|
                0 <= m < k ==> !pred(#[trigger] spec_expand_one(cfg, bases[i])[m])
            &&& forall|j: int, m: int|
                0 <= j < i && 0 <= m < spec_expand_one(cfg, #[trigger] bases[j]).len() ==> !pred(
                    #[trigger] spec_expand_one(cfg, bases[j])[m],
                )
        }),
    ensures
        spec_first_match(cfg, name, Some(paths), cwd, checker, fs) == Ok::<Seq<char>, ResolveError>(
            spec_correct_casing(
                cfg.platform,
                fs,
                spec_expand_one(
                    cfg,
                    spec_split(paths, list_delimiter(cfg.platform)).map_values(
                        join_name(cfg.platform, name),
                    )[i],
                )[k],
            ),
        ),
{
    let roots = spec_split(paths, list_delimiter(cfg.platform));
    let bases = roots.map_values(join_name(cfg.platform, name));
    let pred = accept_pred(cfg.platform, checker, fs);
    let cs = spec_expand_all(cfg, bases);

    // Split the candidate sequence at root `i`.
    let front = bases.take(i);
    let back = bases.skip(i);
    assert(bases =~~= front + back);
    crate::finder::lemma_expand_all_concat(cfg, front, back);
    let a = spec_expand_all(cfg, front);
    assert(back[0] == bases[i]);
    assert(back.drop_first() =~~= bases.skip(i + 1));
    assert(back.len() != 0);
    let head = spec_expand_one(cfg, bases[i]);
    let tail = spec_expand_all(cfg, bases.skip(i + 1));
    assert(spec_expand_all(cfg, back) == head + tail);
    assert(cs == a + (head + tail));

    // Nothing under the earlier roots is accepted.
    assert forall|j: int, m: int|
        0 <= j < front.len() && 0 <= m < spec_expand_one(cfg, #[trigger] front[j]).len()
        implies !pred(#[trigger] spec_expand_one(cfg, front[j])[m]) by {
        assert(front[j] == bases[j]);
    }
    lemma_expand_all_none_accepted(cfg, front, pred);

    // Within root `i`, the first accepted candidate sits at `k`.
    assert forall|m: int| 0 <= m < k implies !pred(#[trigger] (head + tail)[m]) by {
        assert((head + tail)[m] == head[m]);
    }
    assert((head + tail)[k] == head[k]);
    lemma_first_index_pin(head + tail, pred, k);
    assert forall|j: int| 0 <= j < a.len() implies !pred(#[trigger] a[j]) by {}
    crate::path::lemma_first_index_concat(a, head + tail, pred);
    assert(first_index(cs, pred) == Some(a.len() + k));
    assert(cs[a.len() + k] == head[k]);
}

/// Windows extension policy for a base path without any extension: the
/// candidates are exactly the declared extensions appended, in declared
/// order — the bare path itself is never a candidate.
pub proof fn lemma_windows_extension_order(cfg: SearchConfig, base: Seq<char>)
    requires
        cfg.platform == Platform::Windows,
        crate::path::extension_of(Platform::Windows, base) is None,
    ensures
        spec_expand_one(cfg, base) == cfg.exts_view().map_values(append_ext_to(base)),
{
}

/// Non-executable files are never returned: on a platform that models
/// execute permission, when the chain contains the executable checker,
/// every path the all-matches result yields had execute permission in the
/// snapshot.
pub proof fn lemma_non_executable_excluded(
    cfg: SearchConfig,
    name: Seq<char>,
    paths: Option<Seq<char>>,
    cwd: Option<Seq<char>>,
    checker: CompositeChecker,
    fs: FsSnapshot,
    rs: Seq<Seq<char>>,
)
    requires
        cfg.platform != Platform::Windows,
        checker.members().contains(CheckerKind::Executable(ExecutableChecker)),
        spec_all_matches(cfg, name, paths, cwd, checker, fs) == Ok::<Seq<Seq<char>>, ResolveError>(
            rs,
        ),
    ensures
        forall|k: int| 0 <= k < rs.len() ==> fs.spec_facts_at(#[trigger] rs[k]).access_exec,
{
    let cs = match spec_candidates(cfg, name, paths, cwd) {
        Ok(cs) => cs,
        Err(_) => Seq::empty(),
    };
    let pred = accept_pred(cfg.platform, checker, fs);
    let corr = correct_fn(cfg.platform, fs);
    let kept = cs.filter(pred);
    assert(rs == kept.map_values(corr));
    assert(!case_insensitive(cfg.platform));
    assert forall|k: int| 0 <= k < rs.len() implies fs.spec_facts_at(
        #[trigger] rs[k],
    ).access_exec by {
        cs.lemma_filter_pred(pred, k);
        assert(rs[k] == corr(kept[k]));
        assert(spec_correct_casing(cfg.platform, fs, kept[k]) == kept[k]);
        assert(pred(kept[k]));
        let m = choose|m: int|
            0 <= m < checker.members().len() && checker.members()[m] == CheckerKind::Executable(
                ExecutableChecker,
            );
        assert(checker.members()[m].accepts(cfg.platform, fs.spec_facts_at(kept[k])));
    }
}

/// Case correction: on a case-insensitive platform, when the snapshot
/// lists the candidate's directory and entry `i` is the first listed name
/// matching the candidate's file name up to ASCII case, the corrected path
/// carries that on-disk entry's exact casing.
pub proof fn lemma_case_correction(
    p: Platform,
    fs: FsSnapshot,
    path: Seq<char>,
    names: Seq<Seq<char>>,
    i: int,
)
    requires
        case_insensitive(p),
        fs.spec_listing_at(dir_prefix_of(p, path)) == Some(names),
        0 <= i < names.len(),
        eq_ignore_case(names[i], file_name_of(p, path)),
        forall|j: int| 0 <= j < i ==> !eq_ignore_case(#[trigger] names[j], file_name_of(p, path)),
    ensures
        spec_correct_casing(p, fs, path) == dir_prefix_of(p, path) + names[i],
{
    assert forall|j: int| 0 <= j < i implies !ci_pred(file_name_of(p, path))(
        #[trigger] names[j],
    ) by {}
    lemma_first_index_pin(names, ci_pred(file_name_of(p, path)), i);
}

/// A structurally valid all-matches query never fails: with the search
/// context its shape requires, the result is a sequence — possibly empty —
/// never an error.
pub proof fn lemma_valid_query_all_matches_succeeds(
    cfg: SearchConfig,
    name: Seq<char>,
    paths: Option<Seq<char>>,
    cwd: Option<Seq<char>>,
    checker: CompositeChecker,
    fs: FsSnapshot,
)
    requires
        if has_sep(cfg.platform, name) {
            cwd is Some
        } else {
            paths is Some
        },
    ensures
        spec_all_matches(cfg, name, paths, cwd, checker, fs) is Ok,
{
}

/// Idempotence: the first-match result is a function of the query and the
/// snapshot alone, so two resolutions of the same query over an unchanged
/// snapshot return the same result. The executable `which_in` pins its
/// result to `spec_first_match`, so this law carries over to repeated
/// calls.
pub proof fn lemma_first_match_idempotent(
    cfg: SearchConfig,
    name: Seq<char>,
    paths: Option<Seq<char>>,
    cwd: Option<Seq<char>>,
    checker: CompositeChecker,
    fs: FsSnapshot,
    r1: Result<Seq<char>, ResolveError>,
    r2: Result<Seq<char>, ResolveError>,
)
    requires
        r1 == spec_first_match(cfg, name, paths, cwd, checker, fs),
        r2 == spec_first_match(cfg, name, paths, cwd, checker, fs),
    ensures
        r1 == r2,
{
}

/// A sequence whose head satisfies the predicate filters to a sequence
/// headed by that same element.
proof fn lemma_filter_keeps_first(s: Seq<Seq<char>>, pred: spec_fn(Seq<char>) -> bool, i: int)
    requires
        0 <= i < s.len(),
        pred(s[i]),
        forall|j: int| 0 <= j < i ==> !pred(#[trigger] s[j]),
    ensures
        s.filter(pred).len() > 0,
        s.filter(pred)[0] == s[i],
    decreases s.len(),
{
    broadcast use vstd::seq_lib::group_filter_ensures;

    if i < s.len() - 1 {
        assert forall|j: int| 0 <= j < i implies !pred(#[trigger] s.drop_last()[j]) by {
            assert(s.drop_last()[j] == s[j]);
        }
        assert(s.drop_last()[i] == s[i]);
        lemma_filter_keeps_first(s.drop_last(), pred, i);
        reveal(Seq::filter);
        assert(s.filter(pred)[0] == s.drop_last().filter(pred)[0]);
    } else {
        assert forall|j: int| 0 <= j < s.drop_last().len() implies !pred(
            #[trigger] s.drop_last()[j],
        ) by {
            assert(s.drop_last()[j] == s[j]);
        }
        s.drop_last().lemma_all_neg_filter_empty(pred);
        reveal(Seq::filter);
        assert(s.filter(pred) =~~= Seq::<Seq<char>>::empty().push(s[i]));
    }
}

/// The first-match query agrees with the all-matches query: it returns the
/// head of the all-matches sequence, `NotFound` exactly when that sequence
/// is empty, and the same structural error when the query's shape cannot be
/// resolved.
pub proof fn lemma_first_match_heads_all_matches(
    cfg: SearchConfig,
    name: Seq<char>,
    paths: Option<Seq<char>>,
    cwd: Option<Seq<char>>,
    checker: CompositeChecker,
    fs: FsSnapshot,
)
    ensures
        match (
            spec_first_match(cfg, name, paths, cwd, checker, fs),
            spec_all_matches(cfg, name, paths, cwd, checker, fs),
        ) {
            (Ok(p), Ok(all)) => all.len() > 0 && all[0] == p,
            (Err(e), Ok(all)) => all.len() == 0 && e == ResolveError::NotFound,
            (Err(e1), Err(e2)) => e1 == e2,
            (Ok(_), Err(_)) => false,
        },
{
    broadcast use vstd::seq_lib::group_filter_ensures;

    match spec_candidates(cfg, name, paths, cwd) {
        Err(_) => {},
        Ok(cs) => {
            let pred = accept_pred(cfg.platform, checker, fs);
            let corr = correct_fn(cfg.platform, fs);
            lemma_first_index(cs, pred);
            match first_index(cs, pred) {
                Some(i) => {
                    lemma_filter_keeps_first(cs, pred, i);
                    assert(cs.filter(pred).map_values(corr)[0] == corr(cs[i]));
                },
                None => {
                    cs.lemma_all_neg_filter_empty(pred);
                },
            }
        },
    }
}

/// An empty snapshot validates nothing: with the default chain, a
/// structurally valid first-match query over it fails with `NotFound`.
pub proof fn lemma_empty_snapshot_not_found(
    cfg: SearchConfig,
    name: Seq<char>,
    paths: Seq<char>,
    cwd: Option<Seq<char>>,
    checker: CompositeChecker,
    fs: FsSnapshot,
)
    requires
        !has_sep(cfg.platform, name),
        fs.files@.len() == 0,
        checker.members().contains(CheckerKind::Existed(crate::checker::ExistedChecker)),
    ensures
        spec_first_match(cfg, name, Some(paths), cwd, checker, fs) == Err::<Seq<char>, ResolveError>(
            ResolveError::NotFound,
        ),
{
    let cs = match spec_candidates(cfg, name, Some(paths), cwd) {
        Ok(cs) => cs,
        Err(_) => Seq::empty(),
    };
    let pred = accept_pred(cfg.platform, checker, fs);
    assert forall|j: int| 0 <= j < cs.len() implies !pred(#[trigger] cs[j]) by {
        assert(fs.spec_facts_at(cs[j]) == absent_facts());
        let m = choose|m: int|
            0 <= m < checker.members().len() && checker.members()[m] == CheckerKind::Existed(
                crate::checker::ExistedChecker,
            );
        assert(!checker.members()[m].accepts(cfg.platform, absent_facts()));
    }
    crate::path::lemma_first_index_absent(cs, pred);
}

} // verus!
