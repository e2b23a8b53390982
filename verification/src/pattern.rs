//! The textual patterns the engine recognizes, and what each match becomes.
//!
//! Three reference families are scanned for, in this fixed order: issue/PR
//! references, contributor handles, commit hashes. Scanning works on bytes
//! and skips over complete markdown links (`[label](target)`), so text that
//! earlier passes or earlier runs already rewrote is never matched again.
//!
//! The shapes:
//! - issue/PR: `#` followed by one or more digits. A reference must stand at
//!   the start of the text or right after whitespace or `(`; this boundary
//!   rule keeps the scanner out of identifiers and hex hashes and off the
//!   `](` glue of rewritten links.
//! - contributor: `@` followed by one or more of `[A-Za-z0-9_-]`.
//! - commit hash: a run of lower-case hex digits of length 40 or 6 to 8,
//!   delimited by non-word characters (or the text's edges) on both sides.

use vstd::prelude::*;
use crate::bytes::{is_digit, is_handle, is_hex, is_space, is_word};

verus! {

/// The reference families, in the order their passes run.
#[derive(Clone, Copy)]
pub enum PatternKind {
    Issues,
    Contributors,
    Commits,
}

/// Byte classes whose maximal runs the matchers measure.
#[derive(Clone, Copy)]
pub enum ByteClass {
    Digit,
    Handle,
    Hex,
}

pub open spec fn in_class(c: ByteClass, b: u8) -> bool {
    match c {
        ByteClass::Digit => is_digit(b),
        ByteClass::Handle => is_handle(b),
        ByteClass::Hex => is_hex(b),
    }
}

/// The end (exclusive) of the run of `c`-class bytes that starts at `i`.
pub open spec fn run_end(t: Seq<u8>, c: ByteClass, i: int) -> int
    decreases t.len() - i,
{
    if 0 <= i < t.len() && in_class(c, t[i]) {
        run_end(t, c, i + 1)
    } else {
        i
    }
}

pub proof fn lemma_run_end(t: Seq<u8>, c: ByteClass, i: int)
    requires
        0 <= i <= t.len(),
    ensures
        i <= run_end(t, c, i) <= t.len(),
        forall|j: int| i <= j < run_end(t, c, i) ==> in_class(c, t[j]),
        run_end(t, c, i) < t.len() ==> !in_class(c, t[run_end(t, c, i)]),
    decreases t.len() - i,
{
    if i < t.len() && in_class(c, t[i]) {
        lemma_run_end(t, c, i + 1);
    }
}

/// The first position at or after `i` holding byte `b`, or the text's length
/// if there is none.
pub open spec fn find_byte(t: Seq<u8>, b: u8, i: int) -> int
    decreases t.len() - i,
{
    if 0 <= i < t.len() {
        if t[i] == b {
            i
        } else {
            find_byte(t, b, i + 1)
        }
    } else {
        t.len() as int
    }
}

/// `find_byte` lands exactly on the first occurrence.
pub proof fn lemma_find_byte_exact(t: Seq<u8>, b: u8, i: int, k: int)
    requires
        0 <= i <= k < t.len(),
        t[k] == b,
        forall|x: int| i <= x < k ==> t[x] != b,
    ensures
        find_byte(t, b, i) == k,
    decreases k - i,
{
    if i < k {
        lemma_find_byte_exact(t, b, i + 1, k);
    }
}

/// A complete markdown link `[label](target)` starts at `i`: the label runs
/// to the first `]`, which must be directly followed by `(`, and the target
/// runs to the first `)` after that.
pub open spec fn is_link_at(t: Seq<u8>, i: int) -> bool {
    &&& 0 <= i < t.len()
    &&& t[i] == 91
    &&& ({
        let cb = find_byte(t, 93, i + 1);
        &&& cb + 1 < t.len()
        &&& t[cb + 1] == 40
        &&& find_byte(t, 41, cb + 2) < t.len()
    })
}

/// The end (exclusive) of the link starting at `i`: one past its `)`.
pub open spec fn link_end(t: Seq<u8>, i: int) -> int {
    find_byte(t, 41, find_byte(t, 93, i + 1) + 2) + 1
}

/// Boundary allowed directly before an issue/PR reference: whitespace or an
/// opening parenthesis. (The byte before a `#` inside a rewritten link is
/// `]`-glue or a digit, never one of these, so rewritten text stays
/// unmatched.)
pub open spec fn issue_boundary(b: u8) -> bool {
    is_space(b) || b == 40
}

/// An issue/PR reference `#digits` starts at `i`.
pub open spec fn issue_match_at(t: Seq<u8>, i: int) -> bool {
    &&& 0 <= i < t.len()
    &&& (i == 0 || issue_boundary(t[i - 1]))
    &&& t[i] == 35
    &&& run_end(t, ByteClass::Digit, i + 1) > i + 1
}

/// A contributor handle `@name` starts at `i`.
pub open spec fn handle_match_at(t: Seq<u8>, i: int) -> bool {
    &&& 0 <= i < t.len()
    &&& t[i] == 64
    &&& run_end(t, ByteClass::Handle, i + 1) > i + 1
}

/// A commit hash starts at `i`: a hex run of length 40 or 6 to 8, with
/// non-word bytes (or the text's edges) on both sides.
pub open spec fn commit_match_at(t: Seq<u8>, i: int) -> bool {
    &&& 0 <= i < t.len()
    &&& is_hex(t[i])
    &&& (i == 0 || !is_word(t[i - 1]))
    &&& ({
        let h = run_end(t, ByteClass::Hex, i);
        &&& (h == t.len() || !is_word(t[h]))
        &&& (h - i == 40 || (6 <= h - i <= 8))
    })
}

/// A match of `kind` starts at position `i` of `t`.
pub open spec fn match_at(kind: PatternKind, t: Seq<u8>, i: int) -> bool {
    match kind {
        PatternKind::Issues => issue_match_at(t, i),
        PatternKind::Contributors => handle_match_at(t, i),
        PatternKind::Commits => commit_match_at(t, i),
    }
}

/// The end (exclusive) of the match of `kind` starting at `i`.
pub open spec fn match_end(kind: PatternKind, t: Seq<u8>, i: int) -> int {
    match kind {
        PatternKind::Issues => run_end(t, ByteClass::Digit, i + 1),
        PatternKind::Contributors => run_end(t, ByteClass::Handle, i + 1),
        PatternKind::Commits => run_end(t, ByteClass::Hex, i),
    }
}

/// The URL path segment `/issues/`.
pub open spec fn issues_segment() -> Seq<u8> {
    seq![47u8, 105u8, 115u8, 115u8, 117u8, 101u8, 115u8, 47u8]
}

/// The URL path segment `/commit/`.
pub open spec fn commit_segment() -> Seq<u8> {
    seq![47u8, 99u8, 111u8, 109u8, 109u8, 105u8, 116u8, 47u8]
}

/// Remote endpoint configuration: the repository's base URL (for issue and
/// commit references) and the host URL (for contributor handles).
pub struct EngineConfig {
    pub repo_base: Vec<u8>,
    pub host: Vec<u8>,
}

/// Mathematical value of the configuration.
pub struct ConfigSpec {
    pub repo_base: Seq<u8>,
    pub host: Seq<u8>,
}

impl EngineConfig {
    pub open spec fn view(self) -> ConfigSpec {
        ConfigSpec { repo_base: self.repo_base@, host: self.host@ }
    }
}

/// The candidate URL derived from the match of `kind` spanning `[i, j)`.
pub open spec fn match_url(kind: PatternKind, cfg: ConfigSpec, t: Seq<u8>, i: int, j: int) -> Seq<
    u8,
> {
    match kind {
        PatternKind::Issues => cfg.repo_base + issues_segment() + t.subrange(i + 1, j),
        PatternKind::Contributors => cfg.host + seq![47u8] + t.subrange(i + 1, j),
        PatternKind::Commits => cfg.repo_base + commit_segment() + t.subrange(i, j),
    }
}

/// The target a resolved match links to. Issue and commit references link to
/// the canonical URL the probe reported; a contributor handle links to its
/// derived profile URL, preserving the handle's original casing.
pub open spec fn link_target(
    kind: PatternKind,
    cfg: ConfigSpec,
    t: Seq<u8>,
    i: int,
    j: int,
    canonical: Seq<u8>,
) -> Seq<u8> {
    match kind {
        PatternKind::Contributors => cfg.host + seq![47u8] + t.subrange(i + 1, j),
        _ => canonical,
    }
}

/// What a resolved match spanning `[i, j)` is rewritten to: a markdown link
/// whose label is the original matched text.
pub open spec fn replacement(
    kind: PatternKind,
    cfg: ConfigSpec,
    t: Seq<u8>,
    i: int,
    j: int,
    canonical: Seq<u8>,
) -> Seq<u8> {
    seq![91u8] + t.subrange(i, j) + seq![93u8, 40u8] + link_target(kind, cfg, t, i, j, canonical)
        + seq![41u8]
}

pub fn class_member(c: ByteClass, b: u8) -> (r: bool)
    ensures
        r == in_class(c, b),
{
    match c {
        ByteClass::Digit => crate::bytes::digit(b),
        ByteClass::Handle => crate::bytes::handle(b),
        ByteClass::Hex => crate::bytes::hex(b),
    }
}

pub fn boundary(b: u8) -> (r: bool)
    ensures
        r == issue_boundary(b),
{
    crate::bytes::space(b) || b == 40
}

/// Walks to the end of the `c`-class run starting at `i`.
pub fn run_end_from(t: &Vec<u8>, c: ByteClass, i: usize) -> (r: usize)
    requires
        i <= t.len(),
    ensures
        r == run_end(t@, c, i as int),
        i <= r <= t.len(),
{
    let n = t.len();
    let mut j: usize = i;
    while j < n && class_member(c, t[j])
        invariant
            i <= j <= n,
            n == t@.len(),
            run_end(t@, c, i as int) == run_end(t@, c, j as int),
        decreases n - j,
    {
        j += 1;
    }
    proof {
        lemma_run_end(t@, c, j as int);
    }
    j
}

/// Finds the first `b` at or after `i`, or the text's length.
pub fn find_byte_from(t: &Vec<u8>, b: u8, i: usize) -> (r: usize)
    requires
        i <= t.len(),
    ensures
        r == find_byte(t@, b, i as int),
        i <= r <= t.len(),
        r < t.len() ==> t@[r as int] == b,
{
    let n = t.len();
    let mut j: usize = i;
    while j < n && t[j] != b
        invariant
            i <= j <= n,
            n == t@.len(),
            find_byte(t@, b, i as int) == find_byte(t@, b, j as int),
        decreases n - j,
    {
        j += 1;
    }
    j
}

/// Recognizes a complete markdown link starting at `i` and returns its end.
pub fn try_link(t: &Vec<u8>, i: usize) -> (r: Option<usize>)
    requires
        i < t.len(),
    ensures
        match r {
            Some(j) => is_link_at(t@, i as int) && j == link_end(t@, i as int) && i < j
                <= t@.len(),
            None => !is_link_at(t@, i as int),
        },
{
    if t[i] != 91 {
        return None;
    }
    let cb = find_byte_from(t, 93, i + 1);
    if cb >= t.len() || cb + 1 >= t.len() {
        return None;
    }
    if t[cb + 1] != 40 {
        return None;
    }
    let close = find_byte_from(t, 41, cb + 2);
    if close >= t.len() {
        return None;
    }
    Some(close + 1)
}

/// Recognizes a match of `kind` starting at `i` and returns its end.
pub fn try_match(kind: PatternKind, t: &Vec<u8>, i: usize) -> (r: Option<usize>)
    requires
        i < t.len(),
    ensures
        match r {
            Some(j) => match_at(kind, t@, i as int) && j == match_end(kind, t@, i as int) && i < j
                <= t@.len(),
            None => !match_at(kind, t@, i as int),
        },
{
    match kind {
        PatternKind::Issues => {
            if t[i] != 35 {
                return None;
            }
            if i > 0 && !boundary(t[i - 1]) {
                return None;
            }
            let e = run_end_from(t, ByteClass::Digit, i + 1);
            if e > i + 1 {
                Some(e)
            } else {
                None
            }
        },
        PatternKind::Contributors => {
            if t[i] != 64 {
                return None;
            }
            let e = run_end_from(t, ByteClass::Handle, i + 1);
            if e > i + 1 {
                Some(e)
            } else {
                None
            }
        },
        PatternKind::Commits => {
            if !crate::bytes::hex(t[i]) {
                return None;
            }
            if i > 0 && crate::bytes::word(t[i - 1]) {
                return None;
            }
            let h = run_end_from(t, ByteClass::Hex, i);
            if h < t.len() && crate::bytes::word(t[h]) {
                return None;
            }
            let len = h - i;
            if len == 40 || (6 <= len && len <= 8) {
                proof {
                    lemma_run_end(t@, ByteClass::Hex, i as int);
                }
                Some(h)
            } else {
                None
            }
        },
    }
}

fn push_issues_segment(dst: &mut Vec<u8>)
    ensures
        final(dst)@ == old(dst)@ + issues_segment(),
{
    dst.push(47);
    dst.push(105);
    dst.push(115);
    dst.push(115);
    dst.push(117);
    dst.push(101);
    dst.push(115);
    dst.push(47);
    assert(dst@ =~= old(dst)@ + issues_segment());
}

fn push_commit_segment(dst: &mut Vec<u8>)
    ensures
        final(dst)@ == old(dst)@ + commit_segment(),
{
    dst.push(47);
    dst.push(99);
    dst.push(111);
    dst.push(109);
    dst.push(109);
    dst.push(105);
    dst.push(116);
    dst.push(47);
    assert(dst@ =~= old(dst)@ + commit_segment());
}

/// Builds the candidate URL for the match of `kind` spanning `[i, j)`.
pub fn build_url(kind: PatternKind, cfg: &EngineConfig, t: &Vec<u8>, i: usize, j: usize) -> (r:
    Vec<u8>)
    requires
        i < j <= t.len(),
    ensures
        r@ == match_url(kind, cfg@, t@, i as int, j as int),
{
    let mut url: Vec<u8> = Vec::new();
    match kind {
        PatternKind::Issues => {
            crate::bytes::push_range(&mut url, &cfg.repo_base, 0, cfg.repo_base.len());
            push_issues_segment(&mut url);
            crate::bytes::push_range(&mut url, t, i + 1, j);
            assert(url@ =~= match_url(kind, cfg@, t@, i as int, j as int));
        },
        PatternKind::Contributors => {
            crate::bytes::push_range(&mut url, &cfg.host, 0, cfg.host.len());
            url.push(47);
            crate::bytes::push_range(&mut url, t, i + 1, j);
            assert(url@ =~= match_url(kind, cfg@, t@, i as int, j as int));
        },
        PatternKind::Commits => {
            crate::bytes::push_range(&mut url, &cfg.repo_base, 0, cfg.repo_base.len());
            push_commit_segment(&mut url);
            crate::bytes::push_range(&mut url, t, i, j);
            assert(url@ =~= match_url(kind, cfg@, t@, i as int, j as int));
        },
    }
    url
}

} // verus!
