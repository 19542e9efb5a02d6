//! Candidate generation: turning a binary name and a search context into
//! the ordered sequence of candidate paths the resolver will validate.
//!
//! A name containing a separator is resolved directly against the working
//! directory; a bare name is joined onto every root of the search-path list,
//! in priority order. Every base path is then expanded by the platform's
//! extension policy: identity on Unix, the declared executable extensions on
//! Windows, the bare path plus the canonical suffix appended in the sandbox.

use vstd::prelude::*;

use crate::path::{
    eq_ignore_case, extension_dot, ext_dot_idx, has_sep, has_separator, join_path, spec_join,
    spec_split, spec_to_absolute, split_list, str_eq_ignore_case, to_absolute,
};
use crate::platform::{list_delimiter, Platform, SearchConfig};

verus! {

/// Why a resolution could not produce a result.
#[derive(Clone, Copy, PartialEq, Eq, Structural, Debug)]
pub enum ResolveError {
    /// The query's shape cannot be resolved: a name with a separator came
    /// without a working directory, or a bare name without search roots.
    NoResolutionContext,
    /// A structurally valid first-match query exhausted every candidate
    /// without finding a valid one.
    NotFound,
}

/// The function appending an extension entry to `base`.
pub open spec fn append_ext_to(base: Seq<char>) -> spec_fn(Seq<char>) -> Seq<char> {
    |e: Seq<char>| base + e
}

/// The function joining `name` onto a root directory.
pub open spec fn join_name(p: Platform, name: Seq<char>) -> spec_fn(Seq<char>) -> Seq<char> {
    |root: Seq<char>| spec_join(p, root, name)
}

/// Whether `s` already ends in one of the declared executable extensions,
/// compared ignoring ASCII case and without the entry's leading dot.
pub open spec fn spec_has_exec_ext(cfg: SearchConfig, s: Seq<char>) -> bool {
    match crate::path::extension_of(cfg.platform, s) {
        Some(e) => exists|k: int|
            0 <= k < cfg.exts_view().len() && eq_ignore_case(
                (#[trigger] cfg.exts_view()[k]).skip(1),
                e,
            ),
        None => false,
    }
}

/// Whether the string `s` already ends in a declared executable extension.
pub fn has_exec_ext(cfg: &SearchConfig, s: &str) -> (r: bool)
    requires
        cfg.wf(),
    ensures
        r == spec_has_exec_ext(*cfg, s@),
{
    let n = s.unicode_len();
    match extension_dot(cfg.platform, s) {
        None => false,
        Some(k) => {
            let e = s.substring_char(k + 1, n);
            let m = cfg.exts.len();
            let mut i: usize = 0;
            while i < m
                invariant
                    i <= m,
                    m == cfg.exts_view().len(),
                    cfg.wf(),
                    e@ == s@.skip(k + 1),
                    ext_dot_idx(cfg.platform, s@) == Some(k as int),
                    forall|j: int|
                        0 <= j < i ==> !eq_ignore_case((#[trigger] cfg.exts_view()[j]).skip(1), e@),
                decreases m - i,
            {
                let entry = &cfg.exts[i];
                let en = entry.as_str().unicode_len();
                let tail = entry.as_str().substring_char(1, en);
                proof {
                    assert(cfg.exts_view()[i as int] == entry@);
                    assert(tail@ =~= cfg.exts_view()[i as int].skip(1));
                }
                if str_eq_ignore_case(tail, e) {
                    return true;
                }
                i += 1;
            }
            false
        },
    }
}

/// The candidates that one base path expands to under the platform's
/// extension policy, in order:
/// - Unix: the base path alone;
/// - Windows: the base path alone when it already ends in a declared
///   extension; otherwise each declared extension appended in declared
///   order, preceded by the bare path only when the base has some extension;
/// - sandbox: the base path, then the base with a dot and the canonical
///   suffix appended after the full name, whatever extension it carries.
pub open spec fn spec_expand_one(cfg: SearchConfig, base: Seq<char>) -> Seq<Seq<char>> {
    match cfg.platform {
        Platform::Unix => seq![base],
        Platform::Windows => if spec_has_exec_ext(cfg, base) {
            seq![base]
        } else {
            let appended = cfg.exts_view().map_values(append_ext_to(base));
            if crate::path::extension_of(Platform::Windows, base) is Some {
                seq![base] + appended
            } else {
                appended
            }
        },
        Platform::Sandbox => seq![base, base + seq!['.'] + cfg.exe_suffix@],
    }
}

/// Appends the expansion of `base` to `out`.
fn push_expanded(cfg: &SearchConfig, base: &str, out: &mut Vec<String>)
    requires
        cfg.wf(),
    ensures
        final(out).deep_view() == old(out).deep_view() + spec_expand_one(*cfg, base@),
{
    let ghost start = out.deep_view();
    match cfg.platform {
        Platform::Unix => {
            out.push(String::from_str(base));
            proof {
                assert(out.deep_view() =~~= start + spec_expand_one(*cfg, base@));
            }
        },
        Platform::Windows => {
            if has_exec_ext(cfg, base) {
                out.push(String::from_str(base));
                proof {
                    assert(out.deep_view() =~~= start + spec_expand_one(*cfg, base@));
                }
            } else {
                let ghost appended = cfg.exts_view().map_values(append_ext_to(base@));
                let has_some_ext = match extension_dot(cfg.platform, base) {
                    Some(_) => true,
                    None => false,
                };
                let ghost head: Seq<Seq<char>> = if has_some_ext {
                    seq![base@]
                } else {
                    Seq::empty()
                };
                if has_some_ext {
                    out.push(String::from_str(base));
                }
                proof {
                    assert(out.deep_view() =~~= start + head + appended.take(0));
                }
                let m = cfg.exts.len();
                let mut i: usize = 0;
                while i < m
                    invariant
                        i <= m,
                        m == cfg.exts_view().len(),
                        cfg.wf(),
                        appended == cfg.exts_view().map_values(append_ext_to(base@)),
                        out.deep_view() == start + head + appended.take(i as int),
                    decreases m - i,
                {
                    let entry = &cfg.exts[i];
                    let candidate = String::from_str(base).concat(entry.as_str());
                    let ghost pre_dv = out.deep_view();
                    out.push(candidate);
                    proof {
                        assert(cfg.exts_view()[i as int] == entry@);
                        assert(out.deep_view() =~~= pre_dv.push(base@ + entry@));
                        assert(appended[i as int] == append_ext_to(base@)(cfg.exts_view()[i as int]));
                        assert(appended[i as int] == base@ + cfg.exts_view()[i as int]);
                        assert(appended.take(i + 1) =~~= appended.take(i as int).push(
                            appended[i as int],
                        ));
                        assert((start + head + appended.take(i as int)).push(appended[i as int])
                            =~~= start + head + appended.take(i + 1));
                        assert(out.deep_view() =~~= start + head + appended.take(i + 1));
                    }
                    i += 1;
                }
                proof {
                    assert(appended.take(m as int) =~~= appended);
                    assert(start + head + appended =~~= start + spec_expand_one(*cfg, base@));
                }
            }
        },
        Platform::Sandbox => {
            out.push(String::from_str(base));
            let suffixed = String::from_str(base).concat(".").concat(cfg.exe_suffix.as_str());
            out.push(suffixed);
            proof {
                reveal_strlit(".");
                assert(out.deep_view() =~~= start + spec_expand_one(*cfg, base@));
            }
        },
    }
}

/// The expansions of every base path, concatenated in order.
pub open spec fn spec_expand_all(cfg: SearchConfig, bases: Seq<Seq<char>>) -> Seq<Seq<char>>
    decreases bases.len(),
{
    if bases.len() == 0 {
        Seq::empty()
    } else {
        spec_expand_one(cfg, bases[0]) + spec_expand_all(cfg, bases.drop_first())
    }
}

/// Expanding one more base appends its expansion.
pub proof fn lemma_expand_all_push(cfg: SearchConfig, bases: Seq<Seq<char>>, b: Seq<char>)
    ensures
        spec_expand_all(cfg, bases.push(b)) == spec_expand_all(cfg, bases) + spec_expand_one(
            cfg,
            b,
        ),
    decreases bases.len(),
{
    if bases.len() == 0 {
        assert(bases.push(b)[0] == b);
        assert(bases.push(b).drop_first() =~~= Seq::<Seq<char>>::empty());
        assert(spec_expand_all(cfg, bases) == Seq::<Seq<char>>::empty());
        assert(spec_expand_all(cfg, bases.push(b)) == spec_expand_one(cfg, bases.push(b)[0])
            + spec_expand_all(cfg, bases.push(b).drop_first()));
        assert(spec_expand_all(cfg, Seq::<Seq<char>>::empty()) == Seq::<Seq<char>>::empty());
        assert(spec_expand_all(cfg, bases.push(b)) =~~= spec_expand_all(cfg, bases)
            + spec_expand_one(cfg, b));
    } else {
        assert(bases.push(b).drop_first() =~~= bases.drop_first().push(b));
        assert(bases.push(b)[0] == bases[0]);
        lemma_expand_all_push(cfg, bases.drop_first(), b);
        assert(bases.push(b).len() != 0);
        assert(spec_expand_all(cfg, bases.push(b)) == spec_expand_one(cfg, bases.push(b)[0])
            + spec_expand_all(cfg, bases.push(b).drop_first()));
        assert(spec_expand_all(cfg, bases.push(b).drop_first()) == spec_expand_all(
            cfg,
            bases.drop_first(),
        ) + spec_expand_one(cfg, b));
        assert(spec_expand_all(cfg, bases) == spec_expand_one(cfg, bases[0]) + spec_expand_all(
            cfg,
            bases.drop_first(),
        ));
        assert(spec_expand_all(cfg, bases.push(b)) =~~= spec_expand_all(cfg, bases)
            + spec_expand_one(cfg, b));
    }
}

/// Expansion distributes over concatenation of base lists.
pub proof fn lemma_expand_all_concat(cfg: SearchConfig, a: Seq<Seq<char>>, b: Seq<Seq<char>>)
    ensures
        spec_expand_all(cfg, a + b) == spec_expand_all(cfg, a) + spec_expand_all(cfg, b),
    decreases a.len(),
{
    if a.len() == 0 {
        assert(a + b =~~= b);
        assert(spec_expand_all(cfg, a) =~~= Seq::<Seq<char>>::empty());
        assert(spec_expand_all(cfg, a) + spec_expand_all(cfg, b) =~~= spec_expand_all(cfg, b));
    } else {
        assert((a + b)[0] == a[0]);
        assert((a + b).drop_first() =~~= a.drop_first() + b);
        assert((a + b).len() != 0);
        lemma_expand_all_concat(cfg, a.drop_first(), b);
        assert(spec_expand_all(cfg, a + b) == spec_expand_one(cfg, (a + b)[0]) + spec_expand_all(
            cfg,
            (a + b).drop_first(),
        ));
        assert(spec_expand_all(cfg, a + b) =~~= spec_expand_all(cfg, a) + spec_expand_all(cfg, b));
    }
}

/// The ordered base candidates of a query, before extension expansion:
/// a name with a separator resolves against the working directory alone; a
/// bare name joins onto every root of the search-path list in order. A
/// missing context is a structural error.
pub open spec fn spec_base_candidates(
    cfg: SearchConfig,
    name: Seq<char>,
    paths: Option<Seq<char>>,
    cwd: Option<Seq<char>>,
) -> Result<Seq<Seq<char>>, ResolveError> {
    if has_sep(cfg.platform, name) {
        match cwd {
            Some(c) => Ok(seq![spec_to_absolute(cfg.platform, name, c)]),
            None => Err(ResolveError::NoResolutionContext),
        }
    } else {
        match paths {
            Some(p) => Ok(spec_split(p, list_delimiter(cfg.platform)).map_values(join_name(cfg.platform, name))),
            None => Err(ResolveError::NoResolutionContext),
        }
    }
}

/// The full ordered candidate sequence of a query: the base candidates,
/// each expanded by the platform's extension policy.
pub open spec fn spec_candidates(
    cfg: SearchConfig,
    name: Seq<char>,
    paths: Option<Seq<char>>,
    cwd: Option<Seq<char>>,
) -> Result<Seq<Seq<char>>, ResolveError> {
    match spec_base_candidates(cfg, name, paths, cwd) {
        Ok(bases) => Ok(spec_expand_all(cfg, bases)),
        Err(e) => Err(e),
    }
}

/// The candidate-generation engine.
pub struct Finder;

impl Finder {
    /// A new finder.
    pub fn new() -> (r: Finder) {
        Finder
    }

    /// The candidates of a name containing a separator: the name resolved
    /// against the working directory, expanded.
    pub fn cwd_search_candidates(cfg: &SearchConfig, name: &str, cwd: &str) -> (r: Vec<String>)
        requires
            cfg.wf(),
        ensures
            r.deep_view() == spec_expand_all(*cfg, seq![spec_to_absolute(cfg.platform, name@, cwd@)]),
    {
        let base = to_absolute(cfg.platform, name, cwd);
        let mut out: Vec<String> = Vec::new();
        proof {
            assert(out.deep_view() =~~= Seq::<Seq<char>>::empty());
        }
        push_expanded(cfg, base.as_str(), &mut out);
        proof {
            let bases = seq![spec_to_absolute(cfg.platform, name@, cwd@)];
            assert(bases.drop_first() =~~= Seq::<Seq<char>>::empty());
            assert(bases[0] == base@);
            assert(out.deep_view() =~~= Seq::<Seq<char>>::empty() + spec_expand_one(*cfg, base@));
            assert(spec_expand_all(*cfg, bases.drop_first()) =~~= Seq::<Seq<char>>::empty());
            assert(spec_expand_all(*cfg, bases) == spec_expand_one(*cfg, bases[0]) + spec_expand_all(*cfg, bases.drop_first()));
            assert(out.deep_view() =~~= spec_expand_all(*cfg, bases));
        }
        out
    }

    /// The candidates of a bare name: the name joined onto every root of
    /// the search-path list, in order, each expanded.
    pub fn path_search_candidates(cfg: &SearchConfig, name: &str, paths: &str) -> (r: Vec<String>)
        requires
            cfg.wf(),
        ensures
            r.deep_view() == spec_expand_all(
                *cfg,
                spec_split(paths@, list_delimiter(cfg.platform)).map_values(
                    join_name(cfg.platform, name@),
                ),
            ),
    {
        let ghost bases = spec_split(paths@, list_delimiter(cfg.platform)).map_values(
            join_name(cfg.platform, name@),
        );
        let roots = split_list(paths, cfg.platform.delimiter());
        let mut out: Vec<String> = Vec::new();
        let n = roots.len();
        let mut i: usize = 0;
        proof {
            assert(bases.take(0) =~~= Seq::<Seq<char>>::empty());
            assert(out.deep_view() =~~= spec_expand_all(*cfg, bases.take(0)));
        }
        while i < n
            invariant
                i <= n,
                n == roots@.len(),
                cfg.wf(),
                roots.deep_view() == spec_split(paths@, list_delimiter(cfg.platform)),
                bases == spec_split(paths@, list_delimiter(cfg.platform)).map_values(
                    join_name(cfg.platform, name@),
                ),
                out.deep_view() == spec_expand_all(*cfg, bases.take(i as int)),
            decreases n - i,
        {
            let root = &roots[i];
            let base = join_path(cfg.platform, root.as_str(), name);
            push_expanded(cfg, base.as_str(), &mut out);
            proof {
                assert(roots.deep_view()[i as int] == root@);
                assert(bases[i as int] == spec_join(cfg.platform, root@, name@));
                assert(bases.take(i + 1) =~~= bases.take(i as int).push(bases[i as int]));
                lemma_expand_all_push(*cfg, bases.take(i as int), bases[i as int]);
            }
            i += 1;
        }
        proof {
            assert(bases.take(n as int) =~~= bases);
        }
        out
    }

    /// The full ordered candidate list of a literal query, or the
    /// structural error when the query's shape cannot be resolved.
    pub fn candidates(
        cfg: &SearchConfig,
        name: &str,
        paths: Option<&str>,
        cwd: Option<&str>,
    ) -> (r: Result<Vec<String>, ResolveError>)
        requires
            cfg.wf(),
        ensures
            match r {
                Ok(v) => spec_candidates(*cfg, name@, paths.deep_view(), cwd.deep_view()) == Ok::<
                    Seq<Seq<char>>,
                    ResolveError,
                >(v.deep_view()),
                Err(e) => spec_candidates(*cfg, name@, paths.deep_view(), cwd.deep_view()) == Err::<
                    Seq<Seq<char>>,
                    ResolveError,
                >(e),
            },
    {
        if has_separator(cfg.platform, name) {
            match cwd {
                Some(c) => Ok(Finder::cwd_search_candidates(cfg, name, c)),
                None => Err(ResolveError::NoResolutionContext),
            }
        } else {
            match paths {
                Some(p) => Ok(Finder::path_search_candidates(cfg, name, p)),
                None => Err(ResolveError::NoResolutionContext),
            }
        }
    }
}

} // verus!
