use changelog_linker::engine::{run_scripted, RunError};
use changelog_linker::outcome::ProbeOutcome;
use changelog_linker::pattern::EngineConfig;
use changelog_linker::retry::RetryPolicy;

fn cfg() -> EngineConfig {
    EngineConfig {
        repo_base: b"https://github.com/acme/widget".to_vec(),
        host: b"https://github.com".to_vec(),
    }
}

fn success(canonical: &str) -> ProbeOutcome {
    ProbeOutcome::Success { canonical: canonical.as_bytes().to_vec() }
}

/// A probe script: the given outcomes in order, padded with transient
/// failures so a run can never read past the script's end.
fn script(outcomes: Vec<ProbeOutcome>) -> Vec<ProbeOutcome> {
    let mut s = outcomes;
    for _ in 0..64 {
        s.push(ProbeOutcome::Transient);
    }
    s
}

#[test]
fn scenario_issue_resolves_to_link() {
    let text = b"fixed in #42".to_vec();
    let s = script(vec![
        success("https://github.com/acme/widget"),
        success("https://github.com/acme/widget/issues/42"),
    ]);
    let mut pos = 0;
    let out = run_scripted(&cfg(), &text, &RetryPolicy::standard(), &s, &mut pos).unwrap();
    assert_eq!(
        out,
        b"fixed in [#42](https://github.com/acme/widget/issues/42)".to_vec()
    );
    assert_eq!(pos, 2);
}

#[test]
fn scenario_issue_not_found_leaves_text() {
    let text = b"fixed in #42".to_vec();
    let s = script(vec![
        success("https://github.com/acme/widget"),
        ProbeOutcome::NotFound,
    ]);
    let mut pos = 0;
    let out = run_scripted(&cfg(), &text, &RetryPolicy::standard(), &s, &mut pos).unwrap();
    assert_eq!(out, b"fixed in #42".to_vec());
    assert_eq!(pos, 2);
}

#[test]
fn scenario_contributor_resolves_to_link() {
    let text = b"thanks @octocat!".to_vec();
    let s = script(vec![
        success("https://github.com/acme/widget"),
        success("https://github.com/octocat"),
    ]);
    let mut pos = 0;
    let out = run_scripted(&cfg(), &text, &RetryPolicy::standard(), &s, &mut pos).unwrap();
    assert_eq!(out, b"thanks [@octocat](https://github.com/octocat)!".to_vec());
    assert_eq!(pos, 2);
}

#[test]
fn scenario_invalid_repo_aborts_without_rewriting() {
    let text = b"fixed in #42".to_vec();
    let s = script(vec![ProbeOutcome::NotFound]);
    let mut pos = 0;
    let r = run_scripted(&cfg(), &text, &RetryPolicy::standard(), &s, &mut pos);
    assert_eq!(r, Err(RunError::InvalidRepo));
    assert_eq!(pos, 1);
}

#[test]
fn commit_hash_resolves_to_link() {
    let text = b"deploy deadbeef now".to_vec();
    let s = script(vec![
        success("https://github.com/acme/widget"),
        success("https://github.com/acme/widget/commit/deadbeef"),
    ]);
    let mut pos = 0;
    let out = run_scripted(&cfg(), &text, &RetryPolicy::standard(), &s, &mut pos).unwrap();
    assert_eq!(
        out,
        b"deploy [deadbeef](https://github.com/acme/widget/commit/deadbeef) now".to_vec()
    );
    assert_eq!(pos, 2);
}

#[test]
fn rerunning_on_rewritten_text_changes_nothing() {
    let text = b"fixed in #42 by @octocat (deadbeef)".to_vec();
    let s = script(vec![
        success("https://github.com/acme/widget"),
        success("https://github.com/acme/widget/issues/42"),
        success("https://github.com/octocat"),
        success("https://github.com/acme/widget/commit/deadbeef"),
    ]);
    let mut pos = 0;
    let once = run_scripted(&cfg(), &text, &RetryPolicy::standard(), &s, &mut pos).unwrap();
    assert_eq!(pos, 4);

    // Second run: only the base URL is probed again; every reference now
    // stands inside a markdown link and derives no candidate at all.
    let s2 = script(vec![success("https://github.com/acme/widget")]);
    let mut pos2 = 0;
    let twice = run_scripted(&cfg(), &once, &RetryPolicy::standard(), &s2, &mut pos2).unwrap();
    assert_eq!(twice, once);
    assert_eq!(pos2, 1);
}

#[test]
fn cached_reference_probed_exactly_once() {
    let text = b"see #42 and #42 again".to_vec();
    let s = script(vec![
        success("https://github.com/acme/widget"),
        success("https://github.com/acme/widget/issues/42"),
    ]);
    let mut pos = 0;
    let out = run_scripted(&cfg(), &text, &RetryPolicy::standard(), &s, &mut pos).unwrap();
    assert_eq!(
        out,
        b"see [#42](https://github.com/acme/widget/issues/42) and [#42](https://github.com/acme/widget/issues/42) again".to_vec()
    );
    // Base probe plus a single probe for both occurrences of the reference.
    assert_eq!(pos, 2);
}

#[test]
fn handle_inside_rewritten_link_is_not_rematched() {
    let text = b"[thanks @octocat](https://github.com/x)".to_vec();
    let s = script(vec![success("https://github.com/acme/widget")]);
    let mut pos = 0;
    let out = run_scripted(&cfg(), &text, &RetryPolicy::standard(), &s, &mut pos).unwrap();
    assert_eq!(out, text);
    // Only the base URL was probed: the handle inside the link derived no
    // candidate URL.
    assert_eq!(pos, 1);
}

#[test]
fn transient_base_failure_exhausts_budget_and_aborts() {
    let text = b"fixed in #42".to_vec();
    let s = script(vec![]);
    let mut pos = 0;
    let r = run_scripted(&cfg(), &text, &RetryPolicy::standard(), &s, &mut pos);
    assert_eq!(r, Err(RunError::InvalidRepo));
    assert_eq!(pos, 15);
}

#[test]
fn failures_are_per_reference_not_per_run() {
    let text = b"see #1 and #2".to_vec();
    let s = script(vec![
        success("https://github.com/acme/widget"),
        ProbeOutcome::NotFound,
        success("https://github.com/acme/widget/issues/2"),
    ]);
    let mut pos = 0;
    let out = run_scripted(&cfg(), &text, &RetryPolicy::standard(), &s, &mut pos).unwrap();
    assert_eq!(
        out,
        b"see #1 and [#2](https://github.com/acme/widget/issues/2)".to_vec()
    );
    assert_eq!(pos, 3);
}

#[test]
fn multibyte_text_is_preserved_around_references() {
    let text = "crème #42 brûlée".as_bytes().to_vec();
    let s = script(vec![
        success("https://github.com/acme/widget"),
        success("https://github.com/acme/widget/issues/42"),
    ]);
    let mut pos = 0;
    let out = run_scripted(&cfg(), &text, &RetryPolicy::standard(), &s, &mut pos).unwrap();
    assert_eq!(
        String::from_utf8(out).unwrap(),
        "crème [#42](https://github.com/acme/widget/issues/42) brûlée"
    );
}

#[test]
fn canonical_url_from_probe_is_what_links_point_at() {
    // The remote end redirects: the canonical URL differs from the candidate.
    let text = b"fixed in #7".to_vec();
    let s = script(vec![
        success("https://github.com/acme/widget"),
        success("https://github.com/acme/widget/pull/7"),
    ]);
    let mut pos = 0;
    let out = run_scripted(&cfg(), &text, &RetryPolicy::standard(), &s, &mut pos).unwrap();
    assert_eq!(out, b"fixed in [#7](https://github.com/acme/widget/pull/7)".to_vec());
}
