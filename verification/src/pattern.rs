//! Pattern-mode lookup: scanning the search roots for file names matching
//! a compiled regular expression.
//!
//! The regular-expression engine itself is the `regex` crate, reached
//! through trusted wrappers: what `is_match` returns is named by the
//! uninterpreted function `regex_accepts`, a function of the pattern source
//! and the text alone. Everything around the calls — which directories are
//! scanned, which children are tested, which paths are emitted — is
//! verified. No extension expansion applies in this mode: matching is
//! purely against the listed file names.

use vstd::prelude::*;

use crate::checker::{Checker, CompositeChecker};
use crate::finder::Finder;
use crate::fs::FsSnapshot;
use crate::path::{join_path, spec_join, spec_split, split_list};
use crate::platform::{list_delimiter, Platform, SearchConfig};

verus! {

/// The compiled form of a regular expression, declared so values of it can
/// live in the resolver's types; Verus sees nothing inside it.
#[verifier::external_type_specification]
#[verifier::external_body]
pub struct ExRegex(regex::Regex);

/// Whether the regular expression written as `pattern` matches somewhere
/// in `text`. What this holds on given values only the regex engine
/// decides; the resolver's contracts speak of it by this name.
pub uninterp spec fn regex_accepts(pattern: Seq<char>, text: Seq<char>) -> bool;

/// A compiled pattern, together with the source it was compiled from.
pub struct Pattern {
    source: String,
    re: regex::Regex,
}

impl Pattern {
    /// The pattern source this value was compiled from.
    pub closed spec fn src(&self) -> Seq<char> {
        self.source@
    }

    /// Relies on `regex::Regex::new`: compiles the pattern, `None` when
    /// the source is not valid pattern syntax.
    #[verifier::external_body]
    pub fn new(pattern: &str) -> (r: Option<Pattern>)
        ensures
            match r {
                Some(pt) => pt.src() == pattern@,
                None => true,
            },
    {
        match regex::Regex::new(pattern) {
            Ok(re) => Some(Pattern { source: pattern.to_string(), re }),
            Err(_) => None,
        }
    }

    /// Relies on `regex::Regex::is_match`: whether the compiled pattern
    /// matches somewhere in `text` — a function of the pattern source and
    /// the text alone.
    #[verifier::external_body]
    pub fn is_match(&self, text: &str) -> (r: bool)
        ensures
            r == regex_accepts(self.src(), text@),
    {
        self.re.is_match(text)
    }
}

/// The predicate a listed child of `root` must satisfy to be emitted: its
/// name matches the pattern, and the checker chain accepts the recorded
/// facts of its path.
pub open spec fn entry_pred(
    src: Seq<char>,
    platform: Platform,
    checker: CompositeChecker,
    fs: FsSnapshot,
    root: Seq<char>,
) -> spec_fn(Seq<char>) -> bool {
    |name: Seq<char>|
        regex_accepts(src, name) && checker.accepts(
            platform,
            fs.spec_facts_at(spec_join(platform, root, name)),
        )
}

/// The function placing a child name under its root.
pub open spec fn join_under(p: Platform, root: Seq<char>) -> spec_fn(Seq<char>) -> Seq<char> {
    |name: Seq<char>| spec_join(p, root, name)
}

/// The matches one root contributes: its listed children that satisfy
/// `entry_pred`, in listing order, each placed under the root. A root the
/// snapshot has no listing for contributes nothing.
pub open spec fn spec_re_matches_dir(
    src: Seq<char>,
    platform: Platform,
    checker: CompositeChecker,
    fs: FsSnapshot,
    root: Seq<char>,
) -> Seq<Seq<char>> {
    match fs.spec_listing_at(root) {
        Some(names) => names.filter(entry_pred(src, platform, checker, fs, root)).map_values(
            join_under(platform, root),
        ),
        None => Seq::empty(),
    }
}

/// The matches of every root, concatenated in root order.
pub open spec fn spec_re_matches_roots(
    src: Seq<char>,
    platform: Platform,
    checker: CompositeChecker,
    fs: FsSnapshot,
    roots: Seq<Seq<char>>,
) -> Seq<Seq<char>>
    decreases roots.len(),
{
    if roots.len() == 0 {
        Seq::empty()
    } else {
        spec_re_matches_dir(src, platform, checker, fs, roots[0]) + spec_re_matches_roots(
            src,
            platform,
            checker,
            fs,
            roots.drop_first(),
        )
    }
}

/// Scanning one more root appends its contribution.
pub proof fn lemma_re_matches_roots_push(
    src: Seq<char>,
    platform: Platform,
    checker: CompositeChecker,
    fs: FsSnapshot,
    roots: Seq<Seq<char>>,
    root: Seq<char>,
)
    ensures
        spec_re_matches_roots(src, platform, checker, fs, roots.push(root))
            == spec_re_matches_roots(src, platform, checker, fs, roots) + spec_re_matches_dir(
            src,
            platform,
            checker,
            fs,
            root,
        ),
    decreases roots.len(),
{
    if roots.len() == 0 {
        assert(roots.push(root)[0] == root);
        assert(roots.push(root).drop_first() =~~= Seq::<Seq<char>>::empty());
        assert(spec_re_matches_roots(src, platform, checker, fs, roots)
            == Seq::<Seq<char>>::empty());
        assert(spec_re_matches_roots(src, platform, checker, fs, Seq::<Seq<char>>::empty())
            == Seq::<Seq<char>>::empty());
        assert(spec_re_matches_roots(src, platform, checker, fs, roots.push(root))
            =~~= spec_re_matches_roots(src, platform, checker, fs, roots) + spec_re_matches_dir(
            src,
            platform,
            checker,
            fs,
            root,
        ));
    } else {
        assert(roots.push(root).drop_first() =~~= roots.drop_first().push(root));
        assert(roots.push(root)[0] == roots[0]);
        lemma_re_matches_roots_push(src, platform, checker, fs, roots.drop_first(), root);
        assert(spec_re_matches_roots(src, platform, checker, fs, roots.push(root))
            =~~= spec_re_matches_roots(src, platform, checker, fs, roots) + spec_re_matches_dir(
            src,
            platform,
            checker,
            fs,
            root,
        ));
    }
}

/// Every match of the pattern across the roots of the search-path list:
/// for each root in list order, its listed children whose names the
/// pattern matches and whose recorded facts the checker chain accepts,
/// placed under the root. Always a sequence — an empty one when nothing
/// matches — never an error.
pub open spec fn spec_re_matches(
    src: Seq<char>,
    cfg: SearchConfig,
    paths: Seq<char>,
    checker: CompositeChecker,
    fs: FsSnapshot,
) -> Seq<Seq<char>> {
    spec_re_matches_roots(
        src,
        cfg.platform,
        checker,
        fs,
        spec_split(paths, list_delimiter(cfg.platform)),
    )
}

/// Finds every path under the search roots whose file name matches the
/// pattern and whose recorded facts the checker chain accepts.
pub fn which_re_in(
    pattern: &Pattern,
    cfg: &SearchConfig,
    paths: &str,
    checker: &CompositeChecker,
    fs: &FsSnapshot,
) -> (r: Vec<String>)
    ensures
        r.deep_view() == spec_re_matches(pattern.src(), *cfg, paths@, *checker, *fs),
{
    let ghost src = pattern.src();
    let ghost roots_model = spec_split(paths@, list_delimiter(cfg.platform));
    let roots = split_list(paths, cfg.platform.delimiter());
    let mut out: Vec<String> = Vec::new();
    let n = roots.len();
    let mut i: usize = 0;
    proof {
        assert(roots_model.take(0) =~~= Seq::<Seq<char>>::empty());
        assert(out.deep_view() =~~= spec_re_matches_roots(
            src,
            cfg.platform,
            *checker,
            *fs,
            roots_model.take(0),
        ));
    }
    while i < n
        invariant
            i <= n,
            n == roots@.len(),
            src == pattern.src(),
            roots.deep_view() == roots_model,
            roots_model == spec_split(paths@, list_delimiter(cfg.platform)),
            out.deep_view() == spec_re_matches_roots(
                src,
                cfg.platform,
                *checker,
                *fs,
                roots_model.take(i as int),
            ),
        decreases n - i,
    {
        let root = &roots[i];
        let ghost root_v = roots_model[i as int];
        let ghost acc = out.deep_view();
        let ghost pred = entry_pred(src, cfg.platform, *checker, *fs, root_v);
        let ghost place = join_under(cfg.platform, root_v);
        proof {
            assert(root_v == root@);
        }
        match fs.listing_at(root.as_str()) {
            None => {
                proof {
                    assert(spec_re_matches_dir(src, cfg.platform, *checker, *fs, root_v)
                        =~~= Seq::<Seq<char>>::empty());
                }
            },
            Some(names) => {
                let ghost names_model = names.deep_view();
                let m = names.len();
                let mut j: usize = 0;
                proof {
                    assert(names_model.take(0) =~~= Seq::<Seq<char>>::empty());
                    assert(out.deep_view() =~~= acc + names_model.take(0).filter(pred).map_values(
                        place,
                    ));
                }
                while j < m
                    invariant
                        j <= m,
                        m == names@.len(),
                        names_model == names.deep_view(),
                        src == pattern.src(),
                        fs.spec_listing_at(root_v) == Some(names_model),
                        pred == entry_pred(src, cfg.platform, *checker, *fs, root_v),
                        place == join_under(cfg.platform, root_v),
                        root_v == root@,
                        out.deep_view() == acc + names_model.take(j as int).filter(pred).map_values(
                            place,
                        ),
                    decreases m - j,
                {
                    let name = &names[j];
                    let ghost prefix = names_model.take(j as int);
                    let matched = pattern.is_match(name.as_str());
                    let joined = join_path(cfg.platform, root.as_str(), name.as_str());
                    let facts = fs.facts_at(joined.as_str());
                    let valid = checker.is_valid(cfg.platform, &facts);
                    proof {
                        assert(names_model[j as int] == name@);
                        assert(joined@ == spec_join(cfg.platform, root_v, name@));
                        assert(pred(names_model[j as int]) == (matched && valid));
                        assert(names_model.take(j + 1) =~~= prefix.push(names_model[j as int]));
                        prefix.lemma_filter_push(names_model[j as int], pred);
                    }
                    if matched && valid {
                        let ghost pre_dv = out.deep_view();
                        out.push(joined);
                        proof {
                            assert(out.deep_view() =~~= pre_dv.push(place(names_model[j as int])));
                            assert(out.deep_view() =~~= acc + names_model.take(j + 1).filter(
                                pred,
                            ).map_values(place));
                        }
                    } else {
                        proof {
                            assert(out.deep_view() =~~= acc + names_model.take(j + 1).filter(
                                pred,
                            ).map_values(place));
                        }
                    }
                    j += 1;
                }
                proof {
                    assert(names_model.take(m as int) =~~= names_model);
                }
            },
        }
        proof {
            assert(roots_model.take(i + 1) =~~= roots_model.take(i as int).push(root_v));
            lemma_re_matches_roots_push(
                src,
                cfg.platform,
                *checker,
                *fs,
                roots_model.take(i as int),
                root_v,
            );
            assert(out.deep_view() =~~= spec_re_matches_roots(
                src,
                cfg.platform,
                *checker,
                *fs,
                roots_model.take(i + 1),
            ));
        }
        i += 1;
    }
    proof {
        assert(roots_model.take(n as int) =~~= roots_model);
    }
    out
}

impl Finder {
    /// Finds every path under the search roots whose file name matches the
    /// pattern and whose recorded facts the checker chain accepts.
    pub fn find_re(
        &self,
        binary_regex: &Pattern,
        cfg: &SearchConfig,
        paths: &str,
        binary_checker: &CompositeChecker,
        fs: &FsSnapshot,
    ) -> (r: Vec<String>)
        ensures
            r.deep_view() == spec_re_matches(binary_regex.src(), *cfg, paths@, *binary_checker, *fs),
    {
        which_re_in(binary_regex, cfg, paths, binary_checker, fs)
    }
}

} // verus!
