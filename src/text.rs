//! Byte-level helpers shared by the tree model and the emitter.

use vstd::prelude::*;
use vstd::utf8::{
    encode_utf8, is_char_boundary, is_char_boundary_iff_not_is_continuation_byte, is_char_boundary_start_end_of_seq,
    pop_first_scalar, valid_utf8, valid_utf8_concat, valid_utf8_split,
};

verus! {

/// The byte `b` is an ASCII space or horizontal tab.
pub open spec fn is_blank(b: u8) -> bool {
    b == 0x20u8 || b == 0x09u8
}

/// Whether index `i` of `bytes` starts a character (or is the end), as
/// `str::is_char_boundary` decides it on UTF-8 text.
pub open spec fn at_boundary(bytes: Seq<u8>, i: int) -> bool {
    0 <= i <= bytes.len() && (i == bytes.len() || !(0x80u8 <= bytes[i] <= 0xbfu8))
}

/// The range `[s, e)` of `bytes` can be taken as text.
pub open spec fn slice_ok(bytes: Seq<u8>, s: int, e: int) -> bool {
    s <= e && at_boundary(bytes, s) && at_boundary(bytes, e)
}

/// Byte-for-byte equality of two byte strings.
pub fn bytes_eq(a: &[u8], b: &[u8]) -> (r: bool)
    ensures
        r == (a@ == b@),
{
    if a.len() != b.len() {
        return false;
    }
    let mut i: usize = 0;
    while i < a.len()
        invariant
            a@.len() == b@.len(),
            0 <= i <= a@.len(),
            forall|k: int| 0 <= k < i ==> a@[k] == b@[k],
        decreases a@.len() - i,
    {
        if a[i] != b[i] {
            return false;
        }
        i += 1;
    }
    assert(a@ =~= b@);
    true
}

/// Equality of two strings, decided on their UTF-8 bytes.
pub fn str_eq(a: &str, b: &str) -> (r: bool)
    ensures
        r == (a@ == b@),
{
    let r = bytes_eq(a.as_bytes(), b.as_bytes());
    proof {
        vstd::utf8::encode_utf8_decode_utf8(a@);
        vstd::utf8::encode_utf8_decode_utf8(b@);
    }
    r
}

/// Appends `src` to `out`.
pub fn push_all(out: &mut Vec<u8>, src: &[u8])
    ensures
        final(out)@ == old(out)@ + src@,
        valid_utf8(old(out)@) && valid_utf8(src@) ==> valid_utf8(final(out)@),
{
    let mut i: usize = 0;
    while i < src.len()
        invariant
            0 <= i <= src@.len(),
            out@ == old(out)@ + src@.subrange(0, i as int),
        decreases src@.len() - i,
    {
        out.push(src[i]);
        i += 1;
        assert(src@.subrange(0, i as int) =~= src@.subrange(0, i - 1) + seq![src@[i - 1]]);
    }
    assert(src@.subrange(0, src@.len() as int) =~= src@);
    proof {
        if valid_utf8(old(out)@) && valid_utf8(src@) {
            valid_utf8_concat(old(out)@, src@);
        }
    }
}

/// Appends the bytes `src[s..e]` to `out`.
pub fn push_range(out: &mut Vec<u8>, src: &[u8], s: usize, e: usize)
    requires
        s <= e <= src@.len(),
    ensures
        final(out)@ == old(out)@ + src@.subrange(s as int, e as int),
        valid_utf8(old(out)@) && valid_utf8(src@) && slice_ok(src@, s as int, e as int) ==> valid_utf8(final(out)@),
{
    let mut i: usize = s;
    while i < e
        invariant
            s <= i <= e <= src@.len(),
            out@ == old(out)@ + src@.subrange(s as int, i as int),
        decreases e - i,
    {
        out.push(src[i]);
        i += 1;
        assert(src@.subrange(s as int, i as int) =~= src@.subrange(s as int, i - 1) + seq![src@[i - 1]]);
    }
    proof {
        if valid_utf8(old(out)@) && valid_utf8(src@) && slice_ok(src@, s as int, e as int) {
            lemma_slice_valid(src@, s as int, e as int);
            valid_utf8_concat(old(out)@, src@.subrange(s as int, e as int));
        }
    }
}

/// A single ASCII byte is valid UTF-8.
pub proof fn lemma_ascii_byte(b: u8)
    requires
        b < 128,
    ensures
        valid_utf8(seq![b]),
{
    let s = seq![b];
    assert(pop_first_scalar(s) =~= Seq::<u8>::empty());
    reveal_with_fuel(valid_utf8, 2);
}

/// ASCII bytes are valid UTF-8.
pub proof fn lemma_ascii_valid(s: Seq<u8>)
    requires
        forall|i: int| 0 <= i < s.len() ==> s[i] < 128,
    ensures
        valid_utf8(s),
    decreases s.len(),
{
    if s.len() == 0 {
        reveal_with_fuel(valid_utf8, 1);
    } else {
        let rest = s.subrange(1, s.len() as int);
        lemma_ascii_valid(rest);
        lemma_ascii_byte(s[0]);
        valid_utf8_concat(seq![s[0]], rest);
        assert(seq![s[0]] + rest =~= s);
    }
}

/// A range of valid UTF-8 that starts and ends at character starts is
/// valid UTF-8.
pub proof fn lemma_slice_valid(src: Seq<u8>, s: int, e: int)
    requires
        valid_utf8(src),
        slice_ok(src, s, e),
    ensures
        valid_utf8(src.subrange(s, e)),
{
    is_char_boundary_start_end_of_seq(src);
    if e < src.len() {
        is_char_boundary_iff_not_is_continuation_byte(src, e);
    }
    assert(is_char_boundary(src, e));
    valid_utf8_split(src, e);
    let p = src.subrange(0, e);
    is_char_boundary_start_end_of_seq(p);
    if s < e {
        assert(p[s] == src[s]);
        is_char_boundary_iff_not_is_continuation_byte(p, s);
    }
    assert(is_char_boundary(p, s));
    valid_utf8_split(p, s);
    assert(p.subrange(s, p.len() as int) =~= src.subrange(s, e));
}

/// Dropping a final ASCII byte keeps UTF-8 valid.
pub proof fn lemma_drop_ascii_valid(b: Seq<u8>)
    requires
        valid_utf8(b),
        b.len() > 0,
        b.last() < 128,
    ensures
        valid_utf8(b.drop_last()),
{
    is_char_boundary_iff_not_is_continuation_byte(b, b.len() - 1);
    valid_utf8_split(b, b.len() - 1);
    assert(b.subrange(0, b.len() - 1) =~= b.drop_last());
}

/// Appending valid UTF-8 to valid UTF-8 keeps it valid.
pub proof fn lemma_append_valid(a: Seq<u8>, b: Seq<u8>)
    requires
        valid_utf8(a),
        valid_utf8(b),
    ensures
        valid_utf8(a + b),
{
    valid_utf8_concat(a, b);
}

} // verus!
