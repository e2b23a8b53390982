//! The per-run link cache: one terminal entry per candidate URL.

use vstd::prelude::*;
use crate::bytes::bytes_eq;

verus! {

/// Mathematical value of one cache entry.
pub struct EntrySpec {
    pub is_valid: bool,
    pub canonical: Seq<u8>,
}

/// The terminal outcome recorded for a candidate URL: whether it resolved,
/// and if so to which canonical URL (empty for failures).
#[derive(Debug, PartialEq, Eq)]
pub struct CacheEntry {
    pub is_valid: bool,
    pub canonical: Vec<u8>,
}

impl CacheEntry {
    pub open spec fn view(self) -> EntrySpec {
        EntrySpec { is_valid: self.is_valid, canonical: self.canonical@ }
    }

    pub fn clone_entry(&self) -> (r: CacheEntry)
        ensures
            r@ == self@,
    {
        let mut canonical: Vec<u8> = Vec::new();
        crate::bytes::push_range(&mut canonical, &self.canonical, 0, self.canonical.len());
        assert(canonical@ =~= self.canonical@);
        CacheEntry { is_valid: self.is_valid, canonical }
    }
}

/// The map described by a sequence of `(url, entry)` records; a later record
/// for the same URL overrides an earlier one.
pub open spec fn map_of(s: Seq<(Vec<u8>, CacheEntry)>) -> Map<Seq<u8>, EntrySpec>
    decreases s.len(),
{
    if s.len() == 0 {
        Map::empty()
    } else {
        map_of(s.drop_last()).insert(s.last().0@, s.last().1@)
    }
}

proof fn lemma_map_of_found(s: Seq<(Vec<u8>, CacheEntry)>, k: Seq<u8>, i: int)
    requires
        0 <= i < s.len(),
        s[i].0@ == k,
        forall|j: int| i < j < s.len() ==> s[j].0@ != k,
    ensures
        map_of(s).contains_key(k),
        map_of(s)[k] == s[i].1@,
    decreases s.len(),
{
    if i == s.len() - 1 {
    } else {
        assert(s.drop_last()[i] == s[i]);
        lemma_map_of_found(s.drop_last(), k, i);
    }
}

proof fn lemma_map_of_absent(s: Seq<(Vec<u8>, CacheEntry)>, k: Seq<u8>)
    requires
        forall|j: int| 0 <= j < s.len() ==> s[j].0@ != k,
    ensures
        !map_of(s).contains_key(k),
    decreases s.len(),
{
    if s.len() > 0 {
        lemma_map_of_absent(s.drop_last(), k);
    }
}

/// Memoizes resolution outcomes per candidate URL within one run. Once a URL
/// has a terminal entry, that entry is authoritative for the rest of the run
/// and the URL is never probed again.
pub struct LinkCache {
    entries: Vec<(Vec<u8>, CacheEntry)>,
}

impl LinkCache {
    /// The cache as a map from URL bytes to the recorded entry.
    pub closed spec fn view(self) -> Map<Seq<u8>, EntrySpec> {
        map_of(self.entries@)
    }

    pub fn new() -> (r: LinkCache)
        ensures
            r@ == Map::<Seq<u8>, EntrySpec>::empty(),
    {
        LinkCache { entries: Vec::new() }
    }

    /// Looks a candidate URL up; `None` means the URL has not reached a
    /// terminal outcome yet in this run.
    pub fn lookup(&self, url: &Vec<u8>) -> (r: Option<CacheEntry>)
        ensures
            match r {
                Some(e) => self@.contains_key(url@) && self@[url@] == e@,
                None => !self@.contains_key(url@),
            },
    {
        let n = self.entries.len();
        let mut i: usize = n;
        while i > 0
            invariant
                n == self.entries@.len(),
                i <= n,
                forall|j: int| i <= j < n ==> self.entries@[j].0@ != url@,
            decreases i,
        {
            i -= 1;
            if bytes_eq(&self.entries[i].0, url) {
                let e = self.entries[i].1.clone_entry();
                proof {
                    lemma_map_of_found(self.entries@, url@, i as int);
                }
                return Some(e);
            }
        }
        proof {
            lemma_map_of_absent(self.entries@, url@);
        }
        None
    }

    /// Records the terminal outcome for a URL seen for the first time.
    pub fn record(&mut self, url: Vec<u8>, entry: CacheEntry)
        requires
            !old(self)@.contains_key(url@),
        ensures
            final(self)@ == old(self)@.insert(url@, entry@),
    {
        let ghost gu = url@;
        let ghost ge = entry@;
        let ghost old_entries = self.entries@;
        self.entries.push((url, entry));
        proof {
            assert(self.entries@.drop_last() =~= old_entries);
            assert(self.entries@.last().0@ == gu);
            assert(self.entries@.last().1@ == ge);
        }
    }
}

} // verus!
