use changelog_linker::cache::{CacheEntry, LinkCache};
use changelog_linker::engine::candidate_urls;
use changelog_linker::outcome::{classify_status, ProbeOutcome, ResolutionOutcome};
use changelog_linker::pattern::{EngineConfig, PatternKind};
use changelog_linker::resolver::{resolve_scripted, ResolutionSession, SessionStep};
use changelog_linker::retry::{RetryDecision, RetryPolicy};

fn cfg() -> EngineConfig {
    EngineConfig {
        repo_base: b"https://github.com/acme/widget".to_vec(),
        host: b"https://github.com".to_vec(),
    }
}

fn urls(kind: PatternKind, text: &str) -> Vec<Vec<u8>> {
    candidate_urls(kind, &cfg(), &text.as_bytes().to_vec())
}

#[test]
fn classify_success_class() {
    assert_eq!(
        classify_status(200, b"https://x".to_vec()),
        ProbeOutcome::Success { canonical: b"https://x".to_vec() }
    );
    assert_eq!(
        classify_status(204, b"https://y".to_vec()),
        ProbeOutcome::Success { canonical: b"https://y".to_vec() }
    );
}

#[test]
fn classify_not_found_and_transient() {
    assert_eq!(classify_status(404, b"https://x".to_vec()), ProbeOutcome::NotFound);
    assert_eq!(classify_status(500, b"https://x".to_vec()), ProbeOutcome::Transient);
    assert_eq!(classify_status(403, b"https://x".to_vec()), ProbeOutcome::Transient);
    assert_eq!(classify_status(301, b"https://x".to_vec()), ProbeOutcome::Transient);
}

#[test]
fn retry_policy_decisions() {
    let p = RetryPolicy::standard();
    let ok = ProbeOutcome::Success { canonical: b"u".to_vec() };
    assert_eq!(p.decide(&ok, 1), RetryDecision::StopSuccess);
    assert_eq!(p.decide(&ProbeOutcome::NotFound, 1), RetryDecision::StopPermanent);
    assert_eq!(
        p.decide(&ProbeOutcome::Transient, 1),
        RetryDecision::RetryAfter { delay_ms: 3000 }
    );
    assert_eq!(
        p.decide(&ProbeOutcome::Transient, 14),
        RetryDecision::RetryAfter { delay_ms: 2750 + 250 * 14 }
    );
    assert_eq!(p.decide(&ProbeOutcome::Transient, 15), RetryDecision::StopPermanent);
}

#[test]
fn quick_policy_has_two_attempts() {
    let p = RetryPolicy::quick();
    assert_eq!(
        p.decide(&ProbeOutcome::Transient, 1),
        RetryDecision::RetryAfter { delay_ms: 250 }
    );
    assert_eq!(p.decide(&ProbeOutcome::Transient, 2), RetryDecision::StopPermanent);
}

#[test]
fn session_retries_then_gives_up() {
    let mut s = ResolutionSession::new(RetryPolicy::quick());
    assert!(s.may_probe());
    assert_eq!(
        s.on_probe(ProbeOutcome::Transient),
        SessionStep::RetryAfter { delay_ms: 250 }
    );
    assert!(s.may_probe());
    assert_eq!(
        s.on_probe(ProbeOutcome::Transient),
        SessionStep::Done { outcome: ResolutionOutcome::TransientlyFailed }
    );
    assert!(!s.may_probe());
}

#[test]
fn session_stops_on_not_found() {
    let mut s = ResolutionSession::new(RetryPolicy::standard());
    assert_eq!(
        s.on_probe(ProbeOutcome::NotFound),
        SessionStep::Done { outcome: ResolutionOutcome::NotFound }
    );
}

#[test]
fn cache_lookup_after_record() {
    let mut c = LinkCache::new();
    let url = b"https://github.com/acme/widget/issues/1".to_vec();
    assert_eq!(c.lookup(&url), None);
    c.record(url.clone(), CacheEntry { is_valid: true, canonical: b"https://c".to_vec() });
    assert_eq!(
        c.lookup(&url),
        Some(CacheEntry { is_valid: true, canonical: b"https://c".to_vec() })
    );
    assert_eq!(c.lookup(&b"https://other".to_vec()), None);
}

#[test]
fn resolver_exhausts_retry_budget_with_at_most_ceiling_probes() {
    let mut cache = LinkCache::new();
    let policy = RetryPolicy::standard();
    let script = vec![ProbeOutcome::Transient; 40];
    let mut pos = 0;
    let url = b"https://github.com/acme/widget/issues/9".to_vec();
    let out = resolve_scripted(&url, &mut cache, &policy, &script, &mut pos);
    assert_eq!(out, ResolutionOutcome::TransientlyFailed);
    assert_eq!(pos, 15);
    // The exhausted outcome is terminal: a second resolution is a cache hit.
    let out2 = resolve_scripted(&url, &mut cache, &policy, &script, &mut pos);
    assert_eq!(out2, ResolutionOutcome::NotFound);
    assert_eq!(pos, 15);
}

#[test]
fn resolver_recovers_after_transient_failures() {
    let mut cache = LinkCache::new();
    let policy = RetryPolicy::standard();
    let mut script = vec![ProbeOutcome::Transient, ProbeOutcome::Transient];
    script.push(ProbeOutcome::Success { canonical: b"https://c".to_vec() });
    for _ in 0..15 {
        script.push(ProbeOutcome::Transient);
    }
    let mut pos = 0;
    let url = b"https://github.com/acme/widget/issues/3".to_vec();
    let out = resolve_scripted(&url, &mut cache, &policy, &script, &mut pos);
    assert_eq!(out, ResolutionOutcome::Resolved { canonical: b"https://c".to_vec() });
    assert_eq!(pos, 3);
}

#[test]
fn issue_pattern_boundaries() {
    assert_eq!(
        urls(PatternKind::Issues, "fix #42"),
        vec![b"https://github.com/acme/widget/issues/42".to_vec()]
    );
    assert_eq!(
        urls(PatternKind::Issues, "(#7)"),
        vec![b"https://github.com/acme/widget/issues/7".to_vec()]
    );
    assert_eq!(
        urls(PatternKind::Issues, "#1 leads"),
        vec![b"https://github.com/acme/widget/issues/1".to_vec()]
    );
    // No boundary: inside an identifier or a hash, or glued to a letter.
    assert_eq!(urls(PatternKind::Issues, "x#42"), Vec::<Vec<u8>>::new());
    assert_eq!(urls(PatternKind::Issues, "ab]#42"), Vec::<Vec<u8>>::new());
    // No digits after the marker.
    assert_eq!(urls(PatternKind::Issues, "see #x"), Vec::<Vec<u8>>::new());
}

#[test]
fn contributor_pattern_shapes() {
    assert_eq!(
        urls(PatternKind::Contributors, "hi @a-b_c9!"),
        vec![b"https://github.com/a-b_c9".to_vec()]
    );
    // A bare marker with no handle characters is not a reference.
    assert_eq!(urls(PatternKind::Contributors, "a @ b"), Vec::<Vec<u8>>::new());
    assert_eq!(
        urls(PatternKind::Contributors, "mail a@b.com"),
        vec![b"https://github.com/b".to_vec()]
    );
}

#[test]
fn commit_pattern_lengths_and_boundaries() {
    assert_eq!(
        urls(PatternKind::Commits, "at deadbe."),
        vec![b"https://github.com/acme/widget/commit/deadbe".to_vec()]
    );
    assert_eq!(
        urls(PatternKind::Commits, "at deadbeef."),
        vec![b"https://github.com/acme/widget/commit/deadbeef".to_vec()]
    );
    let forty = "0123456789abcdef0123456789abcdef01234567";
    assert_eq!(forty.len(), 40);
    assert_eq!(
        urls(PatternKind::Commits, &format!("ref {} done", forty)),
        vec![format!("https://github.com/acme/widget/commit/{}", forty).into_bytes()]
    );
    // Too short, too long, or not delimited by word boundaries.
    assert_eq!(urls(PatternKind::Commits, "at deadb."), Vec::<Vec<u8>>::new());
    assert_eq!(urls(PatternKind::Commits, "at deadbeef0."), Vec::<Vec<u8>>::new());
    assert_eq!(urls(PatternKind::Commits, "xdeadbeef"), Vec::<Vec<u8>>::new());
    assert_eq!(urls(PatternKind::Commits, "deadbeefx"), Vec::<Vec<u8>>::new());
    // Upper-case hex is not a hash token.
    assert_eq!(urls(PatternKind::Commits, "at DEADBEEF."), Vec::<Vec<u8>>::new());
}

#[test]
fn links_hide_their_contents_from_every_pass() {
    let t = "[#42](https://github.com/acme/widget/issues/42) [@u](https://github.com/u) [deadbeef](https://github.com/acme/widget/commit/deadbeef)";
    assert_eq!(urls(PatternKind::Issues, t), Vec::<Vec<u8>>::new());
    assert_eq!(urls(PatternKind::Contributors, t), Vec::<Vec<u8>>::new());
    assert_eq!(urls(PatternKind::Commits, t), Vec::<Vec<u8>>::new());
}
