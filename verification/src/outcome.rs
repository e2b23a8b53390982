//! Probe and resolution outcomes, and the classification of an HTTP status.

use vstd::prelude::*;

verus! {

/// The normalized result of a single existence check against a URL.
///
/// `Success` carries the canonical URL: the final URL after any redirects.
/// `NotFound` is a permanent failure (HTTP 404) and is never retried.
/// `Transient` is any other non-success status or a network error; it may be
/// retried.
#[derive(Debug, PartialEq, Eq, Clone)]
pub enum ProbeOutcome {
    Success { canonical: Vec<u8> },
    NotFound,
    Transient,
}

/// Mathematical value of a probe outcome.
pub enum ProbeSpec {
    Success { canonical: Seq<u8> },
    NotFound,
    Transient,
}

impl ProbeOutcome {
    pub open spec fn view(self) -> ProbeSpec {
        match self {
            ProbeOutcome::Success { canonical } => ProbeSpec::Success { canonical: canonical@ },
            ProbeOutcome::NotFound => ProbeSpec::NotFound,
            ProbeOutcome::Transient => ProbeSpec::Transient,
        }
    }
}

/// The terminal classification of a candidate URL after resolution.
///
/// `Resolved` carries the canonical URL. `NotFound` is a permanent failure
/// reported by the remote end (or recorded in the cache). `TransientlyFailed`
/// means the retry budget was exhausted while probes kept failing
/// transiently; for this run it is just as terminal as `NotFound`.
#[derive(Debug, PartialEq, Eq)]
pub enum ResolutionOutcome {
    Resolved { canonical: Vec<u8> },
    NotFound,
    TransientlyFailed,
}

/// Mathematical value of a resolution outcome.
pub enum OutcomeSpec {
    Resolved { canonical: Seq<u8> },
    NotFound,
    TransientlyFailed,
}

impl ResolutionOutcome {
    pub open spec fn view(self) -> OutcomeSpec {
        match self {
            ResolutionOutcome::Resolved { canonical } => OutcomeSpec::Resolved {
                canonical: canonical@,
            },
            ResolutionOutcome::NotFound => OutcomeSpec::NotFound,
            ResolutionOutcome::TransientlyFailed => OutcomeSpec::TransientlyFailed,
        }
    }

    /// True when the reference resolved to a live resource.
    pub open spec fn spec_is_resolved(self) -> bool {
        self is Resolved
    }

    pub fn is_resolved(&self) -> (r: bool)
        ensures
            r == self.spec_is_resolved(),
    {
        match self {
            ResolutionOutcome::Resolved { .. } => true,
            _ => false,
        }
    }
}

/// Classifies one HTTP response by status code class alone.
///
/// `2xx` (the success class, after redirects were followed) succeeds and
/// keeps the final URL as canonical; `404` is a permanent failure; every
/// other status is a transient failure. A caller that hit a network error
/// and has no status at all passes `ProbeOutcome::Transient` directly.
pub fn classify_status(status: u16, final_url: Vec<u8>) -> (r: ProbeOutcome)
    ensures
        200 <= status < 300 ==> r == (ProbeOutcome::Success { canonical: final_url }),
        status == 404 ==> r == ProbeOutcome::NotFound,
        !(200 <= status < 300) && status != 404 ==> r == ProbeOutcome::Transient,
{
    if 200 <= status && status < 300 {
        ProbeOutcome::Success { canonical: final_url }
    } else if status == 404 {
        ProbeOutcome::NotFound
    } else {
        ProbeOutcome::Transient
    }
}

} // verus!
