//! The path-resolution engine.
//!
//! `Resolution` is a lazy, pull-based engine over the candidate list of one
//! literal query: a host asks for the next candidate with `peek`, probes it,
//! and reports the probed facts to `step`, which validates exactly that one
//! candidate and emits it when the checker chain accepts. Stopping after the
//! first emission therefore probes no candidate beyond it, and dropping the
//! engine cancels the remaining search.
//!
//! `which_in` and `which_all_in` drive the engine over a recorded
//! `FsSnapshot`, yielding the first-match result and the full ordered match
//! list of a query as pure functions of the snapshot.

use vstd::prelude::*;

use crate::casing::{correct_casing, spec_correct_casing};
use crate::checker::{Checker, CompositeChecker, FileFacts};
use crate::finder::{spec_candidates, Finder, ResolveError};
use crate::fs::FsSnapshot;
use crate::path::{first_index, lemma_first_index_absent, lemma_first_index_pin};
use crate::platform::{Platform, SearchConfig};

verus! {

/// The predicate accepting a candidate whose recorded facts the checker
/// chain accepts.
pub open spec fn accept_pred(
    platform: Platform,
    checker: CompositeChecker,
    fs: FsSnapshot,
) -> spec_fn(Seq<char>) -> bool {
    |c: Seq<char>| checker.accepts(platform, fs.spec_facts_at(c))
}

/// The function correcting a candidate's casing against the snapshot.
pub open spec fn correct_fn(platform: Platform, fs: FsSnapshot) -> spec_fn(Seq<char>) -> Seq<char> {
    |c: Seq<char>| spec_correct_casing(platform, fs, c)
}

/// Every valid candidate of the query, in candidate order, case-corrected:
/// the empty sequence when nothing matches, and an error only when the
/// query's shape cannot be resolved.
pub open spec fn spec_all_matches(
    cfg: SearchConfig,
    name: Seq<char>,
    paths: Option<Seq<char>>,
    cwd: Option<Seq<char>>,
    checker: CompositeChecker,
    fs: FsSnapshot,
) -> Result<Seq<Seq<char>>, ResolveError> {
    match spec_candidates(cfg, name, paths, cwd) {
        Ok(cs) => Ok(
            cs.filter(accept_pred(cfg.platform, checker, fs)).map_values(
                correct_fn(cfg.platform, fs),
            ),
        ),
        Err(e) => Err(e),
    }
}

/// The first valid candidate of the query, case-corrected; `NotFound` when
/// a structurally valid query has no valid candidate.
pub open spec fn spec_first_match(
    cfg: SearchConfig,
    name: Seq<char>,
    paths: Option<Seq<char>>,
    cwd: Option<Seq<char>>,
    checker: CompositeChecker,
    fs: FsSnapshot,
) -> Result<Seq<char>, ResolveError> {
    match spec_candidates(cfg, name, paths, cwd) {
        Ok(cs) => match first_index(cs, accept_pred(cfg.platform, checker, fs)) {
            Some(i) => Ok(spec_correct_casing(cfg.platform, fs, cs[i])),
            None => Err(ResolveError::NotFound),
        },
        Err(e) => Err(e),
    }
}

/// The lazy resolution engine of one literal query: a cursor over the
/// ordered candidate list. The host probes one candidate per `step`, so a
/// consumer that stops after the first emission probes nothing further.
pub struct Resolution {
    platform: Platform,
    candidates: Vec<String>,
    idx: usize,
}

impl Resolution {
    /// The ordered candidate list of the query.
    pub closed spec fn cands(&self) -> Seq<Seq<char>> {
        self.candidates.deep_view()
    }

    /// How many candidates have been validated so far.
    pub closed spec fn cursor(&self) -> int {
        self.idx as int
    }

    /// The platform the engine validates for.
    pub closed spec fn plat(&self) -> Platform {
        self.platform
    }

    /// The cursor never passes the end of the candidate list.
    pub open spec fn wf(&self) -> bool {
        self.cursor() <= self.cands().len()
    }

    /// Selects the search mode and enumerates the candidates of a literal
    /// query, or fails with the structural error.
    pub fn start(
        cfg: &SearchConfig,
        name: &str,
        paths: Option<&str>,
        cwd: Option<&str>,
    ) -> (r: Result<Resolution, ResolveError>)
        requires
            cfg.wf(),
        ensures
            match r {
                Ok(res) => res.wf() && res.cursor() == 0 && res.plat() == cfg.platform
                    && spec_candidates(*cfg, name@, paths.deep_view(), cwd.deep_view()) == Ok::<
                    Seq<Seq<char>>,
                    ResolveError,
                >(res.cands()),
                Err(e) => spec_candidates(*cfg, name@, paths.deep_view(), cwd.deep_view()) == Err::<
                    Seq<Seq<char>>,
                    ResolveError,
                >(e),
            },
    {
        match Finder::candidates(cfg, name, paths, cwd) {
            Ok(candidates) => Ok(Resolution { platform: cfg.platform, candidates, idx: 0 }),
            Err(e) => Err(e),
        }
    }

    /// Whether every candidate has been validated.
    pub fn is_exhausted(&self) -> (r: bool)
        requires
            self.wf(),
        ensures
            r == (self.cursor() == self.cands().len()),
    {
        self.idx == self.candidates.len()
    }

    /// How many candidates have been validated so far.
    pub fn position(&self) -> (r: usize)
        ensures
            r as int == self.cursor(),
    {
        self.idx
    }

    /// The next candidate the host should probe, or `None` when the search
    /// is exhausted.
    pub fn peek(&self) -> (r: Option<&String>)
        requires
            self.wf(),
        ensures
            match r {
                Some(s) => self.cursor() < self.cands().len() && s@ == self.cands()[self.cursor()],
                None => self.cursor() == self.cands().len(),
            },
    {
        if self.idx < self.candidates.len() {
            Some(&self.candidates[self.idx])
        } else {
            None
        }
    }

    /// Validates the current candidate against the probed facts: emits it
    /// when the checker chain accepts, and advances the cursor by exactly
    /// one either way.
    pub fn step(&mut self, checker: &CompositeChecker, facts: &FileFacts) -> (emit: Option<String>)
        requires
            old(self).wf(),
            old(self).cursor() < old(self).cands().len(),
        ensures
            final(self).wf(),
            final(self).cands() == old(self).cands(),
            final(self).plat() == old(self).plat(),
            final(self).cursor() == old(self).cursor() + 1,
            match emit {
                Some(s) => checker.accepts(old(self).plat(), *facts) && s@ == old(self).cands()[
                    old(self).cursor()
                ],
                None => !checker.accepts(old(self).plat(), *facts),
            },
    {
        let valid = checker.is_valid(self.platform, facts);
        let n = self.candidates.len();
        proof {
            assert(self.idx < n);
        }
        let cand = self.candidates[self.idx].clone();
        self.idx = self.idx + 1;
        if valid {
            Some(cand)
        } else {
            None
        }
    }
}

/// Resolves a literal query to its first valid candidate, case-corrected,
/// over the recorded snapshot. Fails with `NoResolutionContext` when the
/// query's shape cannot be resolved, and with `NotFound` when no candidate
/// is valid.
pub fn which_in(
    cfg: &SearchConfig,
    name: &str,
    paths: Option<&str>,
    cwd: Option<&str>,
    checker: &CompositeChecker,
    fs: &FsSnapshot,
) -> (r: Result<String, ResolveError>)
    requires
        cfg.wf(),
    ensures
        match r {
            Ok(s) => spec_first_match(*cfg, name@, paths.deep_view(), cwd.deep_view(), *checker, *fs)
                == Ok::<Seq<char>, ResolveError>(s@),
            Err(e) => spec_first_match(
                *cfg,
                name@,
                paths.deep_view(),
                cwd.deep_view(),
                *checker,
                *fs,
            ) == Err::<Seq<char>, ResolveError>(e),
        },
{
    let mut res = match Resolution::start(cfg, name, paths, cwd) {
        Ok(r0) => r0,
        Err(e) => {
            return Err(e);
        },
    };
    let ghost cs = res.cands();
    let ghost pred = accept_pred(cfg.platform, *checker, *fs);
    while !res.is_exhausted()
        invariant
            res.wf(),
            res.plat() == cfg.platform,
            res.cands() == cs,
            spec_candidates(*cfg, name@, paths.deep_view(), cwd.deep_view()) == Ok::<
                Seq<Seq<char>>,
                ResolveError,
            >(cs),
            pred == accept_pred(cfg.platform, *checker, *fs),
            forall|j: int| 0 <= j < res.cursor() ==> !pred(#[trigger] cs[j]),
        decreases res.cands().len() - res.cursor(),
    {
        let cand = match res.peek() {
            Some(c) => c.clone(),
            None => vstd::pervasive::unreached(),
        };
        let ghost at = res.cursor();
        let facts = fs.facts_at(cand.as_str());
        match res.step(checker, &facts) {
            Some(p) => {
                proof {
                    assert(pred(cs[at]) == checker.accepts(cfg.platform, fs.spec_facts_at(cs[at])));
                    lemma_first_index_pin(cs, pred, at);
                }
                let corrected = correct_casing(cfg.platform, p.as_str(), fs);
                return Ok(corrected);
            },
            None => {
                proof {
                    assert(!pred(cs[at]));
                }
            },
        }
    }
    proof {
        lemma_first_index_absent(cs, pred);
    }
    Err(ResolveError::NotFound)
}

impl Finder {
    /// Resolves a literal query over the recorded snapshot: every valid
    /// candidate in candidate order, each case-corrected, or the
    /// structural error when the query's shape cannot be resolved.
    pub fn find(
        &self,
        cfg: &SearchConfig,
        binary_name: &str,
        paths: Option<&str>,
        cwd: Option<&str>,
        binary_checker: &CompositeChecker,
        fs: &FsSnapshot,
    ) -> (r: Result<Vec<String>, ResolveError>)
        requires
            cfg.wf(),
        ensures
            match r {
                Ok(v) => spec_all_matches(
                    *cfg,
                    binary_name@,
                    paths.deep_view(),
                    cwd.deep_view(),
                    *binary_checker,
                    *fs,
                ) == Ok::<Seq<Seq<char>>, ResolveError>(v.deep_view()),
                Err(e) => spec_all_matches(
                    *cfg,
                    binary_name@,
                    paths.deep_view(),
                    cwd.deep_view(),
                    *binary_checker,
                    *fs,
                ) == Err::<Seq<Seq<char>>, ResolveError>(e),
            },
    {
        which_all_in(cfg, binary_name, paths, cwd, binary_checker, fs)
    }
}

/// Resolves a literal query to every valid candidate, in candidate order,
/// each case-corrected, over the recorded snapshot. An empty result is
/// success; the only error is the structural one.
pub fn which_all_in(
    cfg: &SearchConfig,
    name: &str,
    paths: Option<&str>,
    cwd: Option<&str>,
    checker: &CompositeChecker,
    fs: &FsSnapshot,
) -> (r: Result<Vec<String>, ResolveError>)
    requires
        cfg.wf(),
    ensures
        match r {
            Ok(v) => spec_all_matches(
                *cfg,
                name@,
                paths.deep_view(),
                cwd.deep_view(),
                *checker,
                *fs,
            ) == Ok::<Seq<Seq<char>>, ResolveError>(v.deep_view()),
            Err(e) => spec_all_matches(
                *cfg,
                name@,
                paths.deep_view(),
                cwd.deep_view(),
                *checker,
                *fs,
            ) == Err::<Seq<Seq<char>>, ResolveError>(e),
        },
{
    let mut res = match Resolution::start(cfg, name, paths, cwd) {
        Ok(r0) => r0,
        Err(e) => {
            return Err(e);
        },
    };
    let ghost cs = res.cands();
    let ghost pred = accept_pred(cfg.platform, *checker, *fs);
    let ghost corr = correct_fn(cfg.platform, *fs);
    let mut out: Vec<String> = Vec::new();
    proof {
        assert(cs.take(0) =~~= Seq::<Seq<char>>::empty());
        assert(Seq::<Seq<char>>::empty().filter(pred) =~~= Seq::<Seq<char>>::empty());
        assert(out.deep_view() =~~= cs.take(0).filter(pred).map_values(corr));
    }
    while !res.is_exhausted()
        invariant
            res.wf(),
            res.plat() == cfg.platform,
            res.cands() == cs,
            pred == accept_pred(cfg.platform, *checker, *fs),
            corr == correct_fn(cfg.platform, *fs),
            out.deep_view() == cs.take(res.cursor()).filter(pred).map_values(corr),
        decreases res.cands().len() - res.cursor(),
    {
        let cand = match res.peek() {
            Some(c) => c.clone(),
            None => vstd::pervasive::unreached(),
        };
        let ghost at = res.cursor();
        let ghost prefix = cs.take(at);
        let facts = fs.facts_at(cand.as_str());
        match res.step(checker, &facts) {
            Some(p) => {
                let ghost pre_dv = out.deep_view();
                let corrected = correct_casing(cfg.platform, p.as_str(), fs);
                out.push(corrected);
                proof {
                    assert(pred(cs[at]) == checker.accepts(cfg.platform, fs.spec_facts_at(cs[at])));
                    assert(cs.take(at + 1) =~~= prefix.push(cs[at]));
                    prefix.lemma_filter_push(cs[at], pred);
                    assert(out.deep_view() =~~= pre_dv.push(corr(cs[at])));
                    assert(out.deep_view() =~~= cs.take(at + 1).filter(pred).map_values(corr));
                }
            },
            None => {
                proof {
                    assert(!pred(cs[at]));
                    assert(cs.take(at + 1) =~~= prefix.push(cs[at]));
                    prefix.lemma_filter_push(cs[at], pred);
                    assert(out.deep_view() =~~= cs.take(at + 1).filter(pred).map_values(corr));
                }
            },
        }
    }
    proof {
        assert(cs.take(res.cursor()) =~~= cs);
    }
    Ok(out)
}

} // verus!
