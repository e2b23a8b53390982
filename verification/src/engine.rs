//! The pattern engine: ordered scan-and-substitute passes over the document.
//!
//! A pass walks the text left to right. A complete markdown link is copied
//! wholesale and never scanned inside (so already-rewritten references are
//! not re-matched). At a match of the pass's pattern, the derived candidate
//! URL is looked up in the resolution map: a valid entry substitutes a
//! markdown link for the match, anything else leaves the matched text
//! unchanged. All other bytes are copied as they are.

use vstd::prelude::*;
use crate::bytes::clone_bytes;
use crate::cache::{EntrySpec, LinkCache};
use crate::outcome::{ProbeOutcome, ProbeSpec};
use crate::pattern::{
    build_url, is_link_at, link_end, match_at, match_end, match_url, replacement, try_link,
    try_match, ConfigSpec, EngineConfig, PatternKind,
};
use crate::resolver::{
    probe_views, resolve_cache, resolve_outcome, resolve_probes, resolve_scripted,
};
use crate::retry::RetryPolicy;

verus! {

/// The position a scan step advances to: the step's own end, kept inside
/// `(i, len]` so that a scan always makes progress.
pub open spec fn step_to(i: int, j: int, len: int) -> int {
    if j <= i {
        i + 1
    } else if j > len {
        len
    } else {
        j
    }
}

/// One pass of `kind` over `t` from position `i` on, substituting under the
/// resolution map `m`.
pub open spec fn pass_rec(
    kind: PatternKind,
    cfg: ConfigSpec,
    m: Map<Seq<u8>, EntrySpec>,
    t: Seq<u8>,
    i: int,
) -> Seq<u8>
    decreases t.len() - i,
{
    if !(0 <= i < t.len()) {
        Seq::empty()
    } else if is_link_at(t, i) {
        let j = step_to(i, link_end(t, i), t.len() as int);
        t.subrange(i, j) + pass_rec(kind, cfg, m, t, j)
    } else if match_at(kind, t, i) {
        let j = step_to(i, match_end(kind, t, i), t.len() as int);
        let url = match_url(kind, cfg, t, i, j);
        if m.contains_key(url) && m[url].is_valid {
            replacement(kind, cfg, t, i, j, m[url].canonical) + pass_rec(kind, cfg, m, t, j)
        } else {
            t.subrange(i, j) + pass_rec(kind, cfg, m, t, j)
        }
    } else {
        seq![t[i]] + pass_rec(kind, cfg, m, t, i + 1)
    }
}

/// The full pass of `kind` over `t`.
pub open spec fn pass_spec(
    kind: PatternKind,
    cfg: ConfigSpec,
    m: Map<Seq<u8>, EntrySpec>,
    t: Seq<u8>,
) -> Seq<u8> {
    pass_rec(kind, cfg, m, t, 0)
}

/// The candidate URLs of every match a pass of `kind` over `t` visits, in
/// document order.
pub open spec fn urls_rec(kind: PatternKind, cfg: ConfigSpec, t: Seq<u8>, i: int) -> Seq<Seq<u8>>
    decreases t.len() - i,
{
    if !(0 <= i < t.len()) {
        Seq::empty()
    } else if is_link_at(t, i) {
        urls_rec(kind, cfg, t, step_to(i, link_end(t, i), t.len() as int))
    } else if match_at(kind, t, i) {
        let j = step_to(i, match_end(kind, t, i), t.len() as int);
        seq![match_url(kind, cfg, t, i, j)] + urls_rec(kind, cfg, t, j)
    } else {
        urls_rec(kind, cfg, t, i + 1)
    }
}

/// Rewrites one pass of `kind` over `text`, substituting from `cache` alone:
/// no probing happens here. A match whose URL has no valid cache entry is
/// left unchanged.
pub fn run_pass_resolved(
    kind: PatternKind,
    cfg: &EngineConfig,
    text: &Vec<u8>,
    cache: &LinkCache,
) -> (out: Vec<u8>)
    ensures
        out@ == pass_spec(kind, cfg@, cache@, text@),
{
    let n = text.len();
    let mut out: Vec<u8> = Vec::new();
    let mut i: usize = 0;
    while i < n
        invariant
            n == text@.len(),
            i <= n,
            pass_rec(kind, cfg@, cache@, text@, 0) == out@ + pass_rec(kind, cfg@, cache@, text@, i as int),
        decreases n - i,
    {
        let ghost gi = i as int;
        let ghost tv = text@;
        let ghost m = cache@;
        if let Some(j) = try_link(text, i) {
            proof {
                assert(step_to(gi, link_end(tv, gi), tv.len() as int) == j as int);
                assert(pass_rec(kind, cfg@, m, tv, gi) == tv.subrange(gi, j as int) + pass_rec(
                    kind,
                    cfg@,
                    m,
                    tv,
                    j as int,
                ));
            }
            let ghost out0 = out@;
            crate::bytes::push_range(&mut out, text, i, j);
            proof {
                assert(out0 + pass_rec(kind, cfg@, m, tv, gi) =~= out@ + pass_rec(
                    kind,
                    cfg@,
                    m,
                    tv,
                    j as int,
                ));
            }
            i = j;
        } else if let Some(j) = try_match(kind, text, i) {
            proof {
                assert(step_to(gi, match_end(kind, tv, gi), tv.len() as int) == j as int);
            }
            let url = build_url(kind, cfg, text, i, j);
            let hit = cache.lookup(&url);
            let resolved = match &hit {
                Some(e) => e.is_valid,
                None => false,
            };
            if resolved {
                let entry = match hit {
                    Some(e) => e,
                    None => {
                        proof {
                            assert(false);
                        }
                        crate::cache::CacheEntry { is_valid: false, canonical: Vec::new() }
                    },
                };
                let ghost out0 = out@;
                out.push(91);
                crate::bytes::push_range(&mut out, text, i, j);
                out.push(93);
                out.push(40);
                match kind {
                    PatternKind::Contributors => {
                        crate::bytes::push_range(&mut out, &cfg.host, 0, cfg.host.len());
                        out.push(47);
                        crate::bytes::push_range(&mut out, text, i + 1, j);
                    },
                    _ => {
                        crate::bytes::push_range(
                            &mut out,
                            &entry.canonical,
                            0,
                            entry.canonical.len(),
                        );
                    },
                }
                out.push(41);
                proof {
                    let url_s = match_url(kind, cfg@, tv, gi, j as int);
                    assert(m.contains_key(url_s) && m[url_s].is_valid);
                    assert(pass_rec(kind, cfg@, m, tv, gi) == replacement(
                        kind,
                        cfg@,
                        tv,
                        gi,
                        j as int,
                        m[url_s].canonical,
                    ) + pass_rec(kind, cfg@, m, tv, j as int));
                    assert(out@ =~= out0 + replacement(kind, cfg@, tv, gi, j as int, m[url_s].canonical));
                    assert(out0 + pass_rec(kind, cfg@, m, tv, gi) =~= out@ + pass_rec(
                        kind,
                        cfg@,
                        m,
                        tv,
                        j as int,
                    ));
                }
            } else {
                let ghost out0 = out@;
                crate::bytes::push_range(&mut out, text, i, j);
                proof {
                    let url_s = match_url(kind, cfg@, tv, gi, j as int);
                    assert(!(m.contains_key(url_s) && m[url_s].is_valid));
                    assert(pass_rec(kind, cfg@, m, tv, gi) == tv.subrange(gi, j as int)
                        + pass_rec(kind, cfg@, m, tv, j as int));
                    assert(out0 + pass_rec(kind, cfg@, m, tv, gi) =~= out@ + pass_rec(
                        kind,
                        cfg@,
                        m,
                        tv,
                        j as int,
                    ));
                }
            }
            i = j;
        } else {
            let ghost out0 = out@;
            out.push(text[i]);
            proof {
                assert(pass_rec(kind, cfg@, m, tv, gi) == seq![tv[gi]] + pass_rec(
                    kind,
                    cfg@,
                    m,
                    tv,
                    gi + 1,
                ));
                assert(out0 + pass_rec(kind, cfg@, m, tv, gi) =~= out@ + pass_rec(
                    kind,
                    cfg@,
                    m,
                    tv,
                    gi + 1,
                ));
            }
            i = i + 1;
        }
    }
    proof {
        assert(pass_rec(kind, cfg@, cache@, text@, n as int) =~= Seq::<u8>::empty());
        assert(out@ + Seq::<u8>::empty() =~= out@);
    }
    out
}

/// The mathematical values of a list of byte strings.
pub open spec fn views_of(s: Seq<Vec<u8>>) -> Seq<Seq<u8>> {
    s.map_values(|v: Vec<u8>| v@)
}

/// Collects the candidate URLs a pass of `kind` over `text` will visit, in
/// document order (duplicates included, one per occurrence).
pub fn candidate_urls(kind: PatternKind, cfg: &EngineConfig, text: &Vec<u8>) -> (urls: Vec<Vec<u8>>)
    ensures
        views_of(urls@) == urls_rec(kind, cfg@, text@, 0),
{
    let n = text.len();
    let mut urls: Vec<Vec<u8>> = Vec::new();
    let mut i: usize = 0;
    while i < n
        invariant
            n == text@.len(),
            i <= n,
            urls_rec(kind, cfg@, text@, 0) == views_of(urls@) + urls_rec(kind, cfg@, text@, i as int),
        decreases n - i,
    {
        let ghost gi = i as int;
        let ghost tv = text@;
        if let Some(j) = try_link(text, i) {
            proof {
                assert(step_to(gi, link_end(tv, gi), tv.len() as int) == j as int);
                assert(urls_rec(kind, cfg@, tv, gi) == urls_rec(kind, cfg@, tv, j as int));
            }
            i = j;
        } else if let Some(j) = try_match(kind, text, i) {
            proof {
                assert(step_to(gi, match_end(kind, tv, gi), tv.len() as int) == j as int);
                assert(urls_rec(kind, cfg@, tv, gi) == seq![match_url(kind, cfg@, tv, gi, j as int)]
                    + urls_rec(kind, cfg@, tv, j as int));
            }
            let url = build_url(kind, cfg, text, i, j);
            let ghost urls0 = urls@;
            urls.push(url);
            proof {
                assert(views_of(urls@) =~= views_of(urls0) + seq![
                    match_url(kind, cfg@, tv, gi, j as int),
                ]);
                assert(views_of(urls0) + urls_rec(kind, cfg@, tv, gi) =~= views_of(urls@)
                    + urls_rec(kind, cfg@, tv, j as int));
            }
            i = j;
        } else {
            proof {
                assert(urls_rec(kind, cfg@, tv, gi) == urls_rec(kind, cfg@, tv, gi + 1));
            }
            i = i + 1;
        }
    }
    proof {
        assert(urls_rec(kind, cfg@, text@, n as int) =~= Seq::<Seq<u8>>::empty());
        assert(views_of(urls@) + Seq::<Seq<u8>>::empty() =~= views_of(urls@));
    }
    urls
}

/// The cache after resolving each URL of `urls` in order.
pub open spec fn seq_resolve_cache(
    urls: Seq<Seq<u8>>,
    m: Map<Seq<u8>, EntrySpec>,
    sv: Seq<ProbeSpec>,
    pos: int,
    budget: int,
) -> Map<Seq<u8>, EntrySpec>
    decreases urls.len(),
{
    if urls.len() == 0 {
        m
    } else {
        seq_resolve_cache(
            urls.drop_first(),
            resolve_cache(m, urls[0], sv, pos, budget),
            sv,
            pos + resolve_probes(m, urls[0], sv, pos, budget),
            budget,
        )
    }
}

/// The script position after resolving each URL of `urls` in order.
pub open spec fn seq_resolve_pos(
    urls: Seq<Seq<u8>>,
    m: Map<Seq<u8>, EntrySpec>,
    sv: Seq<ProbeSpec>,
    pos: int,
    budget: int,
) -> int
    decreases urls.len(),
{
    if urls.len() == 0 {
        pos
    } else {
        seq_resolve_pos(
            urls.drop_first(),
            resolve_cache(m, urls[0], sv, pos, budget),
            sv,
            pos + resolve_probes(m, urls[0], sv, pos, budget),
            budget,
        )
    }
}

/// Resolving a list of URLs only moves the script position forward, and by
/// at most `budget` probes per URL.
pub proof fn lemma_seq_resolve_pos_bounds(
    urls: Seq<Seq<u8>>,
    m: Map<Seq<u8>, EntrySpec>,
    sv: Seq<ProbeSpec>,
    pos: int,
    budget: int,
)
    requires
        budget >= 1,
    ensures
        pos <= seq_resolve_pos(urls, m, sv, pos, budget) <= pos + urls.len() * budget,
    decreases urls.len(),
{
    if urls.len() > 0 {
        let probes = resolve_probes(m, urls[0], sv, pos, budget);
        crate::resolver::lemma_retry_bound(sv, pos, budget);
        assert(0 <= probes <= budget);
        lemma_seq_resolve_pos_bounds(
            urls.drop_first(),
            resolve_cache(m, urls[0], sv, pos, budget),
            sv,
            pos + probes,
            budget,
        );
        assert(urls.drop_first().len() == urls.len() - 1);
        assert((urls.len() - 1) * budget + budget == urls.len() * budget) by (nonlinear_arith);
    } else {
        assert(urls.len() * budget == 0) by (nonlinear_arith)
            requires
                urls.len() == 0,
        ;
    }
}

/// Resolves each URL in order against the script: cached URLs are answered
/// without consuming probes, fresh URLs are probed under the retry budget and
/// their terminal outcome recorded.
pub fn resolve_candidates_scripted(
    urls: &Vec<Vec<u8>>,
    cache: &mut LinkCache,
    policy: &RetryPolicy,
    script: &Vec<ProbeOutcome>,
    pos: &mut usize,
)
    requires
        policy.wf(),
        seq_resolve_pos(
            views_of(urls@),
            old(cache)@,
            probe_views(script@),
            *old(pos) as int,
            policy.max_attempts as int,
        ) + policy.max_attempts <= script@.len(),
    ensures
        final(cache)@ == seq_resolve_cache(
            views_of(urls@),
            old(cache)@,
            probe_views(script@),
            *old(pos) as int,
            policy.max_attempts as int,
        ),
        *final(pos) == seq_resolve_pos(
            views_of(urls@),
            old(cache)@,
            probe_views(script@),
            *old(pos) as int,
            policy.max_attempts as int,
        ),
{
    let ghost uv = views_of(urls@);
    let ghost sv = probe_views(script@);
    let ghost budget = policy.max_attempts as int;
    let ghost start = *pos as int;
    let ghost full_cache = seq_resolve_cache(uv, old(cache)@, sv, start, budget);
    let ghost full_pos = seq_resolve_pos(uv, old(cache)@, sv, start, budget);
    proof {
        assert(uv.skip(0) =~= uv);
    }
    let n = urls.len();
    let mut k: usize = 0;
    while k < n
        invariant
            policy.wf(),
            n == urls@.len(),
            k <= n,
            uv == views_of(urls@),
            sv == probe_views(script@),
            budget == policy.max_attempts as int,
            full_cache == seq_resolve_cache(uv, old(cache)@, sv, start, budget),
            full_pos == seq_resolve_pos(uv, old(cache)@, sv, start, budget),
            full_pos + policy.max_attempts <= script@.len(),
            seq_resolve_cache(uv.skip(k as int), cache@, sv, *pos as int, budget) == full_cache,
            seq_resolve_pos(uv.skip(k as int), cache@, sv, *pos as int, budget) == full_pos,
        decreases n - k,
    {
        proof {
            let rest = uv.skip(k as int);
            assert(rest.len() == n - k);
            assert(rest[0] == uv[k as int]);
            lemma_seq_resolve_pos_bounds(
                rest.drop_first(),
                resolve_cache(cache@, rest[0], sv, *pos as int, budget),
                sv,
                *pos as int + resolve_probes(cache@, rest[0], sv, *pos as int, budget),
                budget,
            );
            crate::resolver::lemma_retry_bound(sv, *pos as int, budget);
            assert(*pos as int + resolve_probes(cache@, rest[0], sv, *pos as int, budget)
                <= full_pos);
            assert(uv[k as int] == urls@[k as int]@);
        }
        let ghost cache0 = cache@;
        let ghost pos0 = *pos as int;
        resolve_scripted(&urls[k], cache, policy, script, pos);
        proof {
            let rest = uv.skip(k as int);
            assert(rest.drop_first() =~= uv.skip(k as int + 1));
            assert(cache@ == resolve_cache(cache0, rest[0], sv, pos0, budget));
            assert(*pos as int == pos0 + resolve_probes(cache0, rest[0], sv, pos0, budget));
            assert(seq_resolve_cache(rest, cache0, sv, pos0, budget) == seq_resolve_cache(
                uv.skip(k as int + 1),
                cache@,
                sv,
                *pos as int,
                budget,
            ));
            assert(seq_resolve_pos(rest, cache0, sv, pos0, budget) == seq_resolve_pos(
                uv.skip(k as int + 1),
                cache@,
                sv,
                *pos as int,
                budget,
            ));
        }
        k = k + 1;
    }
    proof {
        assert(uv.skip(n as int) =~= Seq::<Seq<u8>>::empty());
    }
}

/// A fatal configuration error: the repository's base URL did not resolve,
/// so the run aborts before any text is rewritten.
#[derive(Debug, PartialEq, Eq)]
pub enum RunError {
    InvalidRepo,
}

/// The state a run reaches after one stage: the rewritten text, the cache,
/// and the script position.
pub struct StageModel {
    pub text: Seq<u8>,
    pub cache: Map<Seq<u8>, EntrySpec>,
    pub pos: int,
}

/// One pass of `kind`: resolve every candidate URL of `t` in document order,
/// then substitute from the resulting cache.
pub open spec fn stage_model(
    kind: PatternKind,
    cfg: ConfigSpec,
    t: Seq<u8>,
    m: Map<Seq<u8>, EntrySpec>,
    sv: Seq<ProbeSpec>,
    pos: int,
    budget: int,
) -> StageModel {
    let urls = urls_rec(kind, cfg, t, 0);
    let m1 = seq_resolve_cache(urls, m, sv, pos, budget);
    StageModel {
        text: pass_rec(kind, cfg, m1, t, 0),
        cache: m1,
        pos: seq_resolve_pos(urls, m, sv, pos, budget),
    }
}

/// A whole run: the repository's base URL is validated first (a failure
/// aborts the run with the text untouched); then the three passes rewrite
/// the text in their fixed order — issues/PRs, contributors, commits — each
/// pass scanning the previous pass's output, all sharing one cache.
pub open spec fn run_model(
    cfg: ConfigSpec,
    t: Seq<u8>,
    sv: Seq<ProbeSpec>,
    pos: int,
    budget: int,
) -> StageModel {
    let m0 = Map::<Seq<u8>, EntrySpec>::empty();
    let base_ok = resolve_outcome(m0, cfg.repo_base, sv, pos, budget) is Resolved;
    let m1 = resolve_cache(m0, cfg.repo_base, sv, pos, budget);
    let p1 = pos + resolve_probes(m0, cfg.repo_base, sv, pos, budget);
    if !base_ok {
        StageModel { text: t, cache: m1, pos: p1 }
    } else {
        let s1 = stage_model(PatternKind::Issues, cfg, t, m1, sv, p1, budget);
        let s2 = stage_model(PatternKind::Contributors, cfg, s1.text, s1.cache, sv, s1.pos, budget);
        stage_model(PatternKind::Commits, cfg, s2.text, s2.cache, sv, s2.pos, budget)
    }
}

/// Whether a run succeeds: the base URL must resolve.
pub open spec fn run_ok(cfg: ConfigSpec, sv: Seq<ProbeSpec>, pos: int, budget: int) -> bool {
    resolve_outcome(
        Map::<Seq<u8>, EntrySpec>::empty(),
        cfg.repo_base,
        sv,
        pos,
        budget,
    ) is Resolved
}

/// Runs the whole engine against a script of probe outcomes: validates the
/// repository's base URL, then rewrites the text in three ordered passes
/// with a fresh per-run cache. On a validation failure the text is returned
/// untouched inside the error, and nothing was rewritten.
pub fn run_scripted(
    cfg: &EngineConfig,
    text: &Vec<u8>,
    policy: &RetryPolicy,
    script: &Vec<ProbeOutcome>,
    pos: &mut usize,
) -> (r: Result<Vec<u8>, RunError>)
    requires
        policy.wf(),
        run_model(cfg@, text@, probe_views(script@), *old(pos) as int, policy.max_attempts as int).pos
            + policy.max_attempts <= script@.len(),
    ensures
        ({
            let sv = probe_views(script@);
            let budget = policy.max_attempts as int;
            let model = run_model(cfg@, text@, sv, *old(pos) as int, budget);
            &&& *final(pos) == model.pos
            &&& (r is Ok <==> run_ok(cfg@, sv, *old(pos) as int, budget))
            &&& (r matches Ok(out) ==> out@ == model.text)
            &&& (r is Err ==> r == Result::<Vec<u8>, RunError>::Err(RunError::InvalidRepo))
        }),
{
    let ghost sv = probe_views(script@);
    let ghost budget = policy.max_attempts as int;
    let ghost start = *pos as int;
    let ghost model = run_model(cfg@, text@, sv, start, budget);
    let mut cache = LinkCache::new();
    let base = clone_bytes(&cfg.repo_base);
    proof {
        let m0 = Map::<Seq<u8>, EntrySpec>::empty();
        if !run_ok(cfg@, sv, start, budget) {
            crate::resolver::lemma_retry_bound(sv, start, budget);
            assert(model.pos == start + resolve_probes(m0, cfg@.repo_base, sv, start, budget));
        } else {
            let m1 = resolve_cache(m0, cfg@.repo_base, sv, start, budget);
            let p1 = start + resolve_probes(m0, cfg@.repo_base, sv, start, budget);
            let s1 = stage_model(PatternKind::Issues, cfg@, text@, m1, sv, p1, budget);
            let s2 = stage_model(
                PatternKind::Contributors,
                cfg@,
                s1.text,
                s1.cache,
                sv,
                s1.pos,
                budget,
            );
            lemma_seq_resolve_pos_bounds(urls_rec(PatternKind::Issues, cfg@, text@, 0), m1, sv, p1, budget);
            lemma_seq_resolve_pos_bounds(
                urls_rec(PatternKind::Contributors, cfg@, s1.text, 0),
                s1.cache,
                sv,
                s1.pos,
                budget,
            );
            lemma_seq_resolve_pos_bounds(
                urls_rec(PatternKind::Commits, cfg@, s2.text, 0),
                s2.cache,
                sv,
                s2.pos,
                budget,
            );
            crate::resolver::lemma_retry_bound(sv, start, budget);
            assert(p1 <= s1.pos <= s2.pos <= model.pos);
        }
    }
    let base_outcome = resolve_scripted(&base, &mut cache, policy, script, pos);
    if !base_outcome.is_resolved() {
        return Err(RunError::InvalidRepo);
    }
    let urls1 = candidate_urls(PatternKind::Issues, cfg, text);
    resolve_candidates_scripted(&urls1, &mut cache, policy, script, pos);
    let t1 = run_pass_resolved(PatternKind::Issues, cfg, text, &cache);
    proof {
        let m0 = Map::<Seq<u8>, EntrySpec>::empty();
        let m1 = resolve_cache(m0, cfg@.repo_base, sv, start, budget);
        let p1 = start + resolve_probes(m0, cfg@.repo_base, sv, start, budget);
        let s1 = stage_model(PatternKind::Issues, cfg@, text@, m1, sv, p1, budget);
        let s2 = stage_model(PatternKind::Contributors, cfg@, s1.text, s1.cache, sv, s1.pos, budget);
        lemma_seq_resolve_pos_bounds(
            urls_rec(PatternKind::Commits, cfg@, s2.text, 0),
            s2.cache,
            sv,
            s2.pos,
            budget,
        );
        assert(t1@ == s1.text && cache@ == s1.cache && *pos as int == s1.pos);
    }
    let urls2 = candidate_urls(PatternKind::Contributors, cfg, &t1);
    resolve_candidates_scripted(&urls2, &mut cache, policy, script, pos);
    let t2 = run_pass_resolved(PatternKind::Contributors, cfg, &t1, &cache);
    let urls3 = candidate_urls(PatternKind::Commits, cfg, &t2);
    resolve_candidates_scripted(&urls3, &mut cache, policy, script, pos);
    let t3 = run_pass_resolved(PatternKind::Commits, cfg, &t2, &cache);
    Ok(t3)
}

} // verus!
