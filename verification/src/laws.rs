//! Engine-wide properties: link scoping, and idempotence of rewriting.

use vstd::prelude::*;
use crate::bytes::{is_digit, is_handle, is_hex};
use crate::cache::EntrySpec;
use crate::engine::{pass_rec, pass_spec, seq_resolve_cache, seq_resolve_pos, step_to, urls_rec};
use crate::pattern::{
    is_link_at, lemma_find_byte_exact, lemma_run_end, link_end, link_target, match_at, match_end,
    replacement, ByteClass, ConfigSpec, PatternKind,
};

verus! {

/// No match of `kind` occurs at any position the scan visits from `i` on:
/// every visited position either starts a markdown link (which is skipped
/// wholesale) or is a plain byte.
pub open spec fn scan_clean(kind: PatternKind, t: Seq<u8>, i: int) -> bool
    decreases t.len() - i,
{
    if !(0 <= i < t.len()) {
        true
    } else if is_link_at(t, i) {
        scan_clean(kind, t, step_to(i, link_end(t, i), t.len() as int))
    } else if match_at(kind, t, i) {
        false
    } else {
        scan_clean(kind, t, i + 1)
    }
}

/// A pass over a clean text emits it unchanged and derives no candidate URL,
/// whatever the resolution map holds.
pub proof fn lemma_clean_pass_identity(
    kind: PatternKind,
    cfg: ConfigSpec,
    m: Map<Seq<u8>, EntrySpec>,
    t: Seq<u8>,
    i: int,
)
    requires
        0 <= i <= t.len(),
        scan_clean(kind, t, i),
    ensures
        pass_rec(kind, cfg, m, t, i) == t.subrange(i, t.len() as int),
        urls_rec(kind, cfg, t, i) == Seq::<Seq<u8>>::empty(),
    decreases t.len() - i,
{
    if i == t.len() {
        assert(t.subrange(i, t.len() as int) =~= Seq::<u8>::empty());
    } else if is_link_at(t, i) {
        let j = step_to(i, link_end(t, i), t.len() as int);
        lemma_clean_pass_identity(kind, cfg, m, t, j);
        assert(t.subrange(i, j) + t.subrange(j, t.len() as int) =~= t.subrange(
            i,
            t.len() as int,
        ));
    } else {
        lemma_clean_pass_identity(kind, cfg, m, t, i + 1);
        assert(seq![t[i]] + t.subrange(i + 1, t.len() as int) =~= t.subrange(i, t.len() as int));
    }
}

/// Idempotence of rewriting: a text in which no pattern matches anywhere
/// outside a markdown link — which is what rewriting produces, since every
/// substitution emits a complete link and rewritten references no longer
/// match their patterns — is a fixed point of the whole engine. Every pass
/// returns it unchanged, and no candidate URL is derived from it at all, so
/// a second run performs no probe and makes no further change.
pub proof fn lemma_engine_fixpoint(
    cfg: ConfigSpec,
    m1: Map<Seq<u8>, EntrySpec>,
    m2: Map<Seq<u8>, EntrySpec>,
    m3: Map<Seq<u8>, EntrySpec>,
    t: Seq<u8>,
)
    requires
        scan_clean(PatternKind::Issues, t, 0),
        scan_clean(PatternKind::Contributors, t, 0),
        scan_clean(PatternKind::Commits, t, 0),
    ensures
        pass_spec(
            PatternKind::Commits,
            cfg,
            m3,
            pass_spec(PatternKind::Contributors, cfg, m2, pass_spec(PatternKind::Issues, cfg, m1, t)),
        ) == t,
        urls_rec(PatternKind::Issues, cfg, t, 0) == Seq::<Seq<u8>>::empty(),
        urls_rec(PatternKind::Contributors, cfg, t, 0) == Seq::<Seq<u8>>::empty(),
        urls_rec(PatternKind::Commits, cfg, t, 0) == Seq::<Seq<u8>>::empty(),
{
    lemma_clean_pass_identity(PatternKind::Issues, cfg, m1, t, 0);
    assert(t.subrange(0, t.len() as int) =~= t);
    lemma_clean_pass_identity(PatternKind::Contributors, cfg, m2, t, 0);
    lemma_clean_pass_identity(PatternKind::Commits, cfg, m3, t, 0);
}

/// Link scoping, which fixes the pass ordering's meaning: from a position
/// where a complete markdown link starts, every pass copies the link's bytes
/// verbatim and derives no candidate URL from any position inside it;
/// scanning resumes only after the link. A handle (or any other reference)
/// inside an already-rewritten link is therefore never taken for a fresh
/// reference by a later pass or a later run.
pub proof fn lemma_link_contents_skipped(
    kind: PatternKind,
    cfg: ConfigSpec,
    m: Map<Seq<u8>, EntrySpec>,
    t: Seq<u8>,
    i: int,
)
    requires
        is_link_at(t, i),
    ensures
        ({
            let j = step_to(i, link_end(t, i), t.len() as int);
            &&& i < j <= t.len()
            &&& pass_rec(kind, cfg, m, t, i) == t.subrange(i, j) + pass_rec(kind, cfg, m, t, j)
            &&& urls_rec(kind, cfg, t, i) == urls_rec(kind, cfg, t, j)
        }),
{
}

/// Cache correctness across a document: resolving one more occurrence of a
/// URL that the run has already resolved — earlier in the candidate list or
/// in any earlier pass (then it is already in the cache) — consumes no probe
/// at all and changes nothing: the first terminal outcome is authoritative.
pub proof fn lemma_duplicate_occurrence_free(
    urls: Seq<Seq<u8>>,
    m: Map<Seq<u8>, EntrySpec>,
    sv: Seq<crate::outcome::ProbeSpec>,
    pos: int,
    budget: int,
    url: Seq<u8>,
)
    requires
        m.contains_key(url) || exists|a: int| 0 <= a < urls.len() && urls[a] == url,
    ensures
        seq_resolve_pos(urls.push(url), m, sv, pos, budget) == seq_resolve_pos(
            urls,
            m,
            sv,
            pos,
            budget,
        ),
        seq_resolve_cache(urls.push(url), m, sv, pos, budget) == seq_resolve_cache(
            urls,
            m,
            sv,
            pos,
            budget,
        ),
    decreases urls.len(),
{
    if urls.len() == 0 {
        assert(m.contains_key(url));
        assert(urls.push(url)[0] == url);
        assert(urls.push(url).drop_first() =~= urls);
    } else {
        let h = urls[0];
        let m1 = crate::resolver::resolve_cache(m, h, sv, pos, budget);
        let p1 = pos + crate::resolver::resolve_probes(m, h, sv, pos, budget);
        assert(urls.push(url)[0] == h);
        assert(urls.push(url).drop_first() =~= urls.drop_first().push(url));
        if m.contains_key(url) || h == url {
            assert(m1.contains_key(url));
        } else {
            let a = choose|a: int| 0 <= a < urls.len() && urls[a] == url;
            assert(urls.drop_first()[a - 1] == url);
        }
        lemma_duplicate_occurrence_free(urls.drop_first(), m1, sv, p1, budget, url);
    }
}

/// Every substitution the engine emits is itself a complete markdown link
/// spanning exactly the emitted bytes, provided the link's target holds no
/// `)` — which any plain URL satisfies. With `lemma_link_contents_skipped`
/// this closes the idempotence argument for rewritten references: what a
/// pass substitutes, later passes and later runs skip wholesale.
pub proof fn lemma_replacement_is_link(
    kind: PatternKind,
    cfg: ConfigSpec,
    t: Seq<u8>,
    i: int,
    j: int,
    canonical: Seq<u8>,
)
    requires
        match_at(kind, t, i),
        j == match_end(kind, t, i),
        ({
            let target = link_target(kind, cfg, t, i, j, canonical);
            forall|x: int| 0 <= x < target.len() ==> target[x] != 41
        }),
    ensures
        ({
            let r = replacement(kind, cfg, t, i, j, canonical);
            &&& is_link_at(r, 0)
            &&& link_end(r, 0) == r.len()
        }),
{
    let label = t.subrange(i, j);
    let target = link_target(kind, cfg, t, i, j, canonical);
    let r = replacement(kind, cfg, t, i, j, canonical);
    // The label's bytes come from the match, whose alphabet never holds `]`.
    match kind {
        PatternKind::Issues => {
            lemma_run_end(t, ByteClass::Digit, i + 1);
            assert(i < j <= t.len());
            assert forall|x: int| 0 <= x < label.len() implies label[x] != 93 by {
                assert(label[x] == t[i + x]);
                if x == 0 {
                    assert(t[i] == 35);
                } else {
                    assert(is_digit(t[i + x]));
                }
            }
        },
        PatternKind::Contributors => {
            lemma_run_end(t, ByteClass::Handle, i + 1);
            assert(i < j <= t.len());
            assert forall|x: int| 0 <= x < label.len() implies label[x] != 93 by {
                assert(label[x] == t[i + x]);
                if x == 0 {
                    assert(t[i] == 64);
                } else {
                    assert(is_handle(t[i + x]));
                }
            }
        },
        PatternKind::Commits => {
            lemma_run_end(t, ByteClass::Hex, i);
            assert(i < j <= t.len());
            assert forall|x: int| 0 <= x < label.len() implies label[x] != 93 by {
                assert(label[x] == t[i + x]);
                assert(is_hex(t[i + x]));
            }
        },
    }
    let n = label.len() as int;
    assert(r.len() == n + target.len() + 4);
    assert(r[0] == 91);
    assert forall|x: int| 1 <= x < 1 + n implies r[x] != 93 by {
        assert(r[x] == label[x - 1]);
    }
    assert(r[1 + n] == 93);
    lemma_find_byte_exact(r, 93, 1, 1 + n);
    assert(r[n + 2] == 40);
    assert forall|x: int| n + 3 <= x < n + 3 + target.len() implies r[x] != 41 by {
        assert(r[x] == target[x - n - 3]);
    }
    assert(r[n + 3 + target.len()] == 41);
    lemma_find_byte_exact(r, 41, n + 3, n + 3 + target.len() as int);
}

} // verus!
