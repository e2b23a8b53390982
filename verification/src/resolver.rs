//! The resolver: cache consultation plus a bounded-retry probe loop.
//!
//! The library never performs network I/O itself. A resolution is driven
//! either through [`ResolutionSession`], whose caller performs one probe per
//! step and feeds the outcome back, or through [`resolve_scripted`], which
//! reads successive probe outcomes from a pre-supplied script (the form every
//! test uses, with an injected zero-delay driver).

use vstd::prelude::*;
use crate::bytes::clone_bytes;
use crate::cache::{CacheEntry, EntrySpec, LinkCache};
use crate::outcome::{OutcomeSpec, ProbeOutcome, ProbeSpec, ResolutionOutcome};
use crate::retry::{RetryDecision, RetryPolicy};

verus! {

/// The cache entry that a terminal outcome is recorded as: failures are
/// stored as invalid with an empty canonical URL.
pub open spec fn entry_of(o: OutcomeSpec) -> EntrySpec {
    match o {
        OutcomeSpec::Resolved { canonical } => EntrySpec { is_valid: true, canonical },
        _ => EntrySpec { is_valid: false, canonical: Seq::empty() },
    }
}

/// The outcome a cache hit is reported as: a valid entry resolves to its
/// canonical URL, an invalid entry is authoritatively not found for the rest
/// of the run.
pub open spec fn hit_outcome(e: EntrySpec) -> OutcomeSpec {
    if e.is_valid {
        OutcomeSpec::Resolved { canonical: e.canonical }
    } else {
        OutcomeSpec::NotFound
    }
}

/// The mathematical values of a script of probe outcomes.
pub open spec fn probe_views(script: Seq<ProbeOutcome>) -> Seq<ProbeSpec> {
    script.map_values(|p: ProbeOutcome| p@)
}

/// How many probes a resolution consumes when the probes from position
/// `pos` on answer as `script` says and `budget` attempts remain.
pub open spec fn script_probes(script: Seq<ProbeSpec>, pos: int, budget: int) -> int
    decreases budget,
{
    if budget <= 1 {
        1
    } else {
        match script[pos] {
            ProbeSpec::Transient => 1 + script_probes(script, pos + 1, budget - 1),
            _ => 1,
        }
    }
}

/// The terminal outcome of that resolution.
pub open spec fn script_result(script: Seq<ProbeSpec>, pos: int, budget: int) -> OutcomeSpec
    decreases budget,
{
    match script[pos] {
        ProbeSpec::Success { canonical } => OutcomeSpec::Resolved { canonical },
        ProbeSpec::NotFound => OutcomeSpec::NotFound,
        ProbeSpec::Transient => {
            if budget <= 1 {
                OutcomeSpec::TransientlyFailed
            } else {
                script_result(script, pos + 1, budget - 1)
            }
        },
    }
}

/// Probes consumed by `resolve` for `url`: none on a cache hit, else one
/// bounded probe sequence.
pub open spec fn resolve_probes(
    cache: Map<Seq<u8>, EntrySpec>,
    url: Seq<u8>,
    script: Seq<ProbeSpec>,
    pos: int,
    budget: int,
) -> int {
    if cache.contains_key(url) {
        0
    } else {
        script_probes(script, pos, budget)
    }
}

/// Outcome reported by `resolve` for `url`.
pub open spec fn resolve_outcome(
    cache: Map<Seq<u8>, EntrySpec>,
    url: Seq<u8>,
    script: Seq<ProbeSpec>,
    pos: int,
    budget: int,
) -> OutcomeSpec {
    if cache.contains_key(url) {
        hit_outcome(cache[url])
    } else {
        script_result(script, pos, budget)
    }
}

/// The cache after `resolve` for `url`: unchanged on a hit, else extended
/// with the terminal outcome.
pub open spec fn resolve_cache(
    cache: Map<Seq<u8>, EntrySpec>,
    url: Seq<u8>,
    script: Seq<ProbeSpec>,
    pos: int,
    budget: int,
) -> Map<Seq<u8>, EntrySpec> {
    if cache.contains_key(url) {
        cache
    } else {
        cache.insert(url, entry_of(script_result(script, pos, budget)))
    }
}

/// One in-flight resolution: the attempt counter driven by the retry policy.
/// The caller probes, reports each outcome through [`Self::on_probe`], and
/// obeys the returned step (wait, or stop with the given outcome).
pub struct ResolutionSession {
    pub policy: RetryPolicy,
    pub attempts_made: u32,
}

/// What the driver of a session must do next.
#[derive(Debug, PartialEq, Eq)]
pub enum SessionStep {
    Done { outcome: ResolutionOutcome },
    RetryAfter { delay_ms: u64 },
}

impl ResolutionSession {
    pub open spec fn wf(self) -> bool {
        &&& self.policy.wf()
        &&& self.attempts_made <= self.policy.max_attempts
    }

    /// True while the retry budget allows another probe.
    pub fn may_probe(&self) -> (r: bool)
        ensures
            r == (self.attempts_made < self.policy.max_attempts),
    {
        self.attempts_made < self.policy.max_attempts
    }

    pub fn new(policy: RetryPolicy) -> (r: ResolutionSession)
        requires
            policy.wf(),
        ensures
            r.wf(),
            r.policy == policy,
            r.attempts_made == 0,
    {
        ResolutionSession { policy, attempts_made: 0 }
    }

    /// Accounts for one probe the caller just made and decides what follows:
    /// success resolves, 404 is permanently not found, a transient failure
    /// retries after a linear backoff until the budget is exhausted, which is
    /// terminal for this run.
    pub fn on_probe(&mut self, outcome: ProbeOutcome) -> (r: SessionStep)
        requires
            old(self).wf(),
            old(self).attempts_made < old(self).policy.max_attempts,
        ensures
            final(self).wf(),
            final(self).policy == old(self).policy,
            final(self).attempts_made == old(self).attempts_made + 1,
            match outcome@ {
                ProbeSpec::Success { canonical } => (r matches SessionStep::Done { outcome: o }
                    && o@ == (OutcomeSpec::Resolved { canonical })),
                ProbeSpec::NotFound => r == (SessionStep::Done {
                    outcome: ResolutionOutcome::NotFound,
                }),
                ProbeSpec::Transient => {
                    if old(self).attempts_made + 1 == old(self).policy.max_attempts {
                        r == (SessionStep::Done { outcome: ResolutionOutcome::TransientlyFailed })
                    } else {
                        r == (SessionStep::RetryAfter {
                            delay_ms: old(self).policy.spec_delay((old(self).attempts_made + 1) as u32),
                        })
                    }
                },
            },
    {
        self.attempts_made = self.attempts_made + 1;
        let decision = self.policy.decide(&outcome, self.attempts_made);
        match outcome {
            ProbeOutcome::Success { canonical } => SessionStep::Done {
                outcome: ResolutionOutcome::Resolved { canonical },
            },
            ProbeOutcome::NotFound => SessionStep::Done { outcome: ResolutionOutcome::NotFound },
            ProbeOutcome::Transient => {
                match decision {
                    RetryDecision::StopPermanent => SessionStep::Done {
                        outcome: ResolutionOutcome::TransientlyFailed,
                    },
                    RetryDecision::RetryAfter { delay_ms } => SessionStep::RetryAfter { delay_ms },
                    RetryDecision::StopSuccess => SessionStep::Done {
                        outcome: ResolutionOutcome::TransientlyFailed,
                    },
                }
            },
        }
    }
}

/// Resolves one candidate URL against a script of probe outcomes: the cache
/// is consulted first and is authoritative on a hit; on a miss, probes are
/// read from `script` at `*pos` under the policy's retry budget and the
/// terminal outcome is recorded in the cache.
pub fn resolve_scripted(
    url: &Vec<u8>,
    cache: &mut LinkCache,
    policy: &RetryPolicy,
    script: &Vec<ProbeOutcome>,
    pos: &mut usize,
) -> (out: ResolutionOutcome)
    requires
        policy.wf(),
        old(cache)@.contains_key(url@) || *old(pos) + policy.max_attempts <= script@.len(),
    ensures
        ({
            let sv = probe_views(script@);
            let budget = policy.max_attempts as int;
            &&& *final(pos) == *old(pos) + resolve_probes(
                old(cache)@,
                url@,
                sv,
                *old(pos) as int,
                budget,
            )
            &&& out@ == resolve_outcome(old(cache)@, url@, sv, *old(pos) as int, budget)
            &&& final(cache)@ == resolve_cache(old(cache)@, url@, sv, *old(pos) as int, budget)
            &&& resolve_probes(old(cache)@, url@, sv, *old(pos) as int, budget)
                <= policy.max_attempts
        }),
{
    let ghost sv = probe_views(script@);
    let ghost start = *pos as int;
    let ghost budget = policy.max_attempts as int;
    match cache.lookup(url) {
        Some(e) => {
            if e.is_valid {
                ResolutionOutcome::Resolved { canonical: e.canonical }
            } else {
                ResolutionOutcome::NotFound
            }
        },
        None => {
            let n = script.len();
            let mut attempt: u32 = 0;
            loop
                invariant
                    policy.wf(),
                    budget == policy.max_attempts as int,
                    start == *old(pos) as int,
                    n == script@.len(),
                    0 <= attempt < policy.max_attempts,
                    *pos == start + attempt,
                    start + policy.max_attempts <= script@.len(),
                    sv == probe_views(script@),
                    cache@ == old(cache)@,
                    !cache@.contains_key(url@),
                    script_probes(sv, start, budget) == attempt + script_probes(
                        sv,
                        *pos as int,
                        budget - attempt,
                    ),
                    script_result(sv, start, budget) == script_result(
                        sv,
                        *pos as int,
                        budget - attempt,
                    ),
                decreases policy.max_attempts - attempt,
            {
                let probe = &script[*pos];
                assert(probe@ == sv[*pos as int]);
                *pos = *pos + 1;
                attempt = attempt + 1;
                let ghost p0 = *pos - 1;
                let ghost rest = budget - (attempt - 1);
                match probe {
                    ProbeOutcome::Success { canonical } => {
                        let canon1 = clone_bytes(canonical);
                        let canon2 = clone_bytes(canonical);
                        cache.record(
                            clone_bytes(url),
                            CacheEntry { is_valid: true, canonical: canon1 },
                        );
                        assert(script_probes(sv, p0, rest) == 1);
                        assert(script_result(sv, p0, rest) == (OutcomeSpec::Resolved {
                            canonical: canonical@,
                        }));
                        return ResolutionOutcome::Resolved { canonical: canon2 };
                    },
                    ProbeOutcome::NotFound => {
                        cache.record(
                            clone_bytes(url),
                            CacheEntry { is_valid: false, canonical: Vec::new() },
                        );
                        assert(script_probes(sv, p0, rest) == 1);
                        assert(script_result(sv, p0, rest) == OutcomeSpec::NotFound);
                        return ResolutionOutcome::NotFound;
                    },
                    ProbeOutcome::Transient => {
                        if attempt == policy.max_attempts {
                            cache.record(
                                clone_bytes(url),
                                CacheEntry { is_valid: false, canonical: Vec::new() },
                            );
                            assert(rest == 1);
                            assert(script_probes(sv, p0, rest) == 1);
                            assert(script_result(sv, p0, rest)
                                == OutcomeSpec::TransientlyFailed);
                            return ResolutionOutcome::TransientlyFailed;
                        }
                        assert(rest > 1 && sv[p0] is Transient);
                        assert(script_probes(sv, p0, rest) == 1 + script_probes(
                            sv,
                            p0 + 1,
                            rest - 1,
                        ));
                        assert(script_result(sv, p0, rest) == script_result(sv, p0 + 1, rest - 1));
                    },
                }
            }
        },
    }
}

/// Retry bound: a resolution that misses the cache issues at least one and
/// at most `budget` probes; and when every available probe fails
/// transiently, it issues exactly `budget` probes and then reports the
/// exhaustion as a terminal failure.
pub proof fn lemma_retry_bound(script: Seq<ProbeSpec>, pos: int, budget: int)
    requires
        budget >= 1,
    ensures
        1 <= script_probes(script, pos, budget) <= budget,
        (forall|i: int| pos <= i < pos + budget ==> script[i] is Transient) ==> script_probes(
            script,
            pos,
            budget,
        ) == budget && script_result(script, pos, budget) == OutcomeSpec::TransientlyFailed,
    decreases budget,
{
    if budget > 1 {
        lemma_retry_bound(script, pos + 1, budget - 1);
    }
}

/// Cache correctness: after a URL has been resolved once, every later
/// resolution of the same URL in the same run consumes no probe at all and
/// is answered with the entry the first resolution recorded.
pub proof fn lemma_cache_correctness(
    cache: Map<Seq<u8>, EntrySpec>,
    url: Seq<u8>,
    script: Seq<ProbeSpec>,
    pos: int,
    budget: int,
    script2: Seq<ProbeSpec>,
    pos2: int,
)
    requires
        !cache.contains_key(url),
    ensures
        ({
            let cache1 = resolve_cache(cache, url, script, pos, budget);
            &&& resolve_probes(cache1, url, script2, pos2, budget) == 0
            &&& entry_of(resolve_outcome(cache1, url, script2, pos2, budget)) == entry_of(
                resolve_outcome(cache, url, script, pos, budget),
            )
        }),
{
}

} // verus!
