//! Byte-level character classes and small verified helpers on byte vectors.
//!
//! The engine works on documents as UTF-8 bytes. Every pattern it recognizes
//! is pure ASCII, and ASCII bytes never occur inside a multi-byte UTF-8
//! sequence, so byte-level scanning is safe on any UTF-8 document.

use vstd::prelude::*;

verus! {

/// ASCII decimal digit.
pub open spec fn is_digit(b: u8) -> bool {
    48 <= b <= 57
}

/// ASCII letter.
pub open spec fn is_alpha(b: u8) -> bool {
    (65 <= b <= 90) || (97 <= b <= 122)
}

/// ASCII letter or digit.
pub open spec fn is_alnum(b: u8) -> bool {
    is_digit(b) || is_alpha(b)
}

/// Whitespace, as pattern boundaries treat it: space, tab, LF, VT, FF, CR.
pub open spec fn is_space(b: u8) -> bool {
    b == 32 || b == 9 || b == 10 || b == 11 || b == 12 || b == 13
}

/// Lower-case hexadecimal digit, the alphabet of commit hashes.
pub open spec fn is_hex(b: u8) -> bool {
    is_digit(b) || (97 <= b <= 102)
}

/// Word character (letter, digit or underscore); commit hashes must be
/// delimited by non-word characters.
pub open spec fn is_word(b: u8) -> bool {
    is_alnum(b) || b == 95
}

/// Character allowed in a contributor handle: letter, digit, `_` or `-`.
pub open spec fn is_handle(b: u8) -> bool {
    is_alnum(b) || b == 95 || b == 45
}

pub fn digit(b: u8) -> (r: bool)
    ensures
        r == is_digit(b),
{
    48 <= b && b <= 57
}

pub fn alnum(b: u8) -> (r: bool)
    ensures
        r == is_alnum(b),
{
    (48 <= b && b <= 57) || (65 <= b && b <= 90) || (97 <= b && b <= 122)
}

pub fn space(b: u8) -> (r: bool)
    ensures
        r == is_space(b),
{
    b == 32 || b == 9 || b == 10 || b == 11 || b == 12 || b == 13
}

pub fn hex(b: u8) -> (r: bool)
    ensures
        r == is_hex(b),
{
    (48 <= b && b <= 57) || (97 <= b && b <= 102)
}

pub fn word(b: u8) -> (r: bool)
    ensures
        r == is_word(b),
{
    alnum(b) || b == 95
}

pub fn handle(b: u8) -> (r: bool)
    ensures
        r == is_handle(b),
{
    alnum(b) || b == 95 || b == 45
}

/// True when the two byte strings hold the same bytes.
pub fn bytes_eq(a: &Vec<u8>, b: &Vec<u8>) -> (r: bool)
    ensures
        r <==> a@ == b@,
{
    if a.len() != b.len() {
        assert(a@ != b@) by {
            assert(a@.len() != b@.len());
        }
        return false;
    }
    let n = a.len();
    let mut i: usize = 0;
    while i < n
        invariant
            n == a.len() == b.len(),
            i <= n,
            forall|k: int| 0 <= k < i ==> a@[k] == b@[k],
        decreases n - i,
    {
        if a[i] != b[i] {
            return false;
        }
        i += 1;
    }
    assert(a@ =~= b@);
    true
}

/// A copy of the byte string.
pub fn clone_bytes(v: &Vec<u8>) -> (r: Vec<u8>)
    ensures
        r@ == v@,
{
    let mut r: Vec<u8> = Vec::new();
    push_range(&mut r, v, 0, v.len());
    assert(r@ =~= v@);
    r
}

/// Appends the bytes of `src` in positions `[from, to)` to `dst`.
pub fn push_range(dst: &mut Vec<u8>, src: &Vec<u8>, from: usize, to: usize)
    requires
        from <= to <= src.len(),
    ensures
        final(dst)@ == old(dst)@ + src@.subrange(from as int, to as int),
{
    let mut i: usize = from;
    while i < to
        invariant
            from <= i <= to <= src.len(),
            dst@ == old(dst)@ + src@.subrange(from as int, i as int),
        decreases to - i,
    {
        dst.push(src[i]);
        assert(src@.subrange(from as int, i as int).push(src@[i as int]) =~= src@.subrange(
            from as int,
            i + 1 as int,
        ));
        i += 1;
    }
}

} // verus!
