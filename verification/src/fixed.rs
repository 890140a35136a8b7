//! Fixed-width integers on the wire: big-endian, most significant byte first.

use vstd::prelude::*;
use vstd::slice::slice_subrange;

verus! {

/// The low `width` bytes of `n`, most significant first.
pub open spec fn be_bytes(n: nat, width: nat) -> Seq<u8>
    decreases width,
{
    if width == 0 {
        Seq::empty()
    } else {
        be_bytes(n / 256, (width - 1) as nat).push((n % 256) as u8)
    }
}

/// The number that `b` spells, most significant byte first.
pub open spec fn be_value(b: Seq<u8>) -> nat
    decreases b.len(),
{
    if b.len() == 0 {
        0
    } else {
        256 * be_value(b.drop_last()) + b.last() as nat
    }
}

/// 256 to the power `width`: the first number that `width` bytes cannot hold.
pub open spec fn byte_limit(width: nat) -> nat
    decreases width,
{
    if width == 0 {
        1
    } else {
        256 * byte_limit((width - 1) as nat)
    }
}

/// The 64 bits of `v` read as an unsigned number (two's complement).
pub open spec fn quad_of(v: i64) -> nat {
    if v >= 0 {
        v as nat
    } else {
        (v + 0x1_0000_0000_0000_0000) as nat
    }
}

/// The signed number whose 64 bits spell `n`, for `n` below two to the 64.
pub open spec fn signed_quad(n: nat) -> i64 {
    if n < 0x8000_0000_0000_0000 {
        n as i64
    } else {
        (n - 0x1_0000_0000_0000_0000) as i64
    }
}

/// The two wire bytes of a port number.
pub open spec fn u16_wire(v: u16) -> Seq<u8> {
    be_bytes(v as nat, 2)
}

/// The eight wire bytes of a signed 64-bit value.
pub open spec fn i64_wire(v: i64) -> Seq<u8> {
    be_bytes(quad_of(v), 8)
}

/// The port number at the front of `b`, if two bytes are there.
pub open spec fn u16_parse(b: Seq<u8>) -> Option<u16> {
    if b.len() >= 2 {
        Some(be_value(b.subrange(0, 2)) as u16)
    } else {
        None
    }
}

/// The signed 64-bit value at the front of `b`, if eight bytes are there.
pub open spec fn i64_parse(b: Seq<u8>) -> Option<i64> {
    if b.len() >= 8 {
        Some(signed_quad(be_value(b.subrange(0, 8))))
    } else {
        None
    }
}

/// `width` bytes are `width` bytes.
pub proof fn lemma_be_bytes_len(n: nat, width: nat)
    ensures
        be_bytes(n, width).len() == width,
    decreases width,
{
    if width > 0 {
        lemma_be_bytes_len(n / 256, (width - 1) as nat);
    }
}

/// What a sequence spells stays below the limit of its length.
pub proof fn lemma_be_value_bound(b: Seq<u8>)
    ensures
        be_value(b) < byte_limit(b.len()),
    decreases b.len(),
{
    if b.len() > 0 {
        lemma_be_value_bound(b.drop_last());
    }
}

/// A number that fits in `width` bytes is spelled by its bytes.
pub proof fn lemma_be_round_trip(n: nat, width: nat)
    requires
        n < byte_limit(width),
    ensures
        be_value(be_bytes(n, width)) == n,
    decreases width,
{
    if width > 0 {
        let shorter = be_bytes(n / 256, (width - 1) as nat);
        let all = be_bytes(n, width);
        assert(all.drop_last() =~= shorter);
        assert(all.last() == (n % 256) as u8);
        lemma_be_round_trip(n / 256, (width - 1) as nat);
    }
}

/// The limits of two and of eight bytes, written out.
pub proof fn lemma_byte_limits()
    ensures
        byte_limit(2) == 0x1_0000,
        byte_limit(7) == 0x100_0000_0000_0000,
        byte_limit(8) == 0x1_0000_0000_0000_0000,
{
    reveal_with_fuel(byte_limit, 9);
}

/// Reading the wire bytes of a port number, whatever follows them, gives it
/// back.
pub proof fn lemma_u16_round_trip(v: u16, more: Seq<u8>)
    ensures
        u16_wire(v).len() == 2,
        u16_parse(u16_wire(v) + more) == Some(v),
{
    lemma_byte_limits();
    lemma_be_bytes_len(v as nat, 2);
    lemma_be_round_trip(v as nat, 2);
    assert((u16_wire(v) + more).subrange(0, 2) =~= u16_wire(v));
}

/// Reading the wire bytes of a signed value, whatever follows them, gives it
/// back.
pub proof fn lemma_i64_round_trip(v: i64, more: Seq<u8>)
    ensures
        i64_wire(v).len() == 8,
        i64_parse(i64_wire(v) + more) == Some(v),
{
    lemma_byte_limits();
    lemma_be_bytes_len(quad_of(v), 8);
    lemma_be_round_trip(quad_of(v), 8);
    assert((i64_wire(v) + more).subrange(0, 8) =~= i64_wire(v));
}

/// Appends the two wire bytes of `v` to `out`.
pub fn put_u16(out: &mut Vec<u8>, v: u16)
    ensures
        final(out)@ == old(out)@ + u16_wire(v),
{
    let high: u8 = (v / 256) as u8;
    let low: u8 = (v % 256) as u8;
    out.push(high);
    out.push(low);
    proof {
        reveal_with_fuel(be_bytes, 3);
        assert(u16_wire(v) =~= seq![high, low]);
        assert(out@ =~= old(out)@ + u16_wire(v));
    }
}

/// The port number at the front of `bytes`, if two bytes are there.
pub fn take_u16(bytes: &[u8]) -> (r: Option<u16>)
    ensures
        r == u16_parse(bytes@),
{
    if bytes.len() < 2 {
        return None;
    }
    let high: u16 = bytes[0] as u16;
    let low: u16 = bytes[1] as u16;
    proof {
        let b = bytes@.subrange(0, 2);
        reveal_with_fuel(be_value, 3);
        assert(b.drop_last() =~= seq![bytes@[0]]);
        assert(b.drop_last().drop_last() =~= Seq::<u8>::empty());
        assert(b.last() == bytes@[1]);
        assert(b.drop_last().last() == bytes@[0]);
        assert(be_value(b) == 256 * (bytes@[0] as nat) + bytes@[1] as nat);
    }
    Some(high * 256 + low)
}

/// Appends the eight wire bytes of `v` to `out`.
pub fn put_i64(out: &mut Vec<u8>, v: i64)
    ensures
        final(out)@ == old(out)@ + i64_wire(v),
{
    let bits: u64 = if v >= 0 {
        v as u64
    } else {
        ((v + 0x7fff_ffff_ffff_ffff + 1) as u64) + 0x8000_0000_0000_0000
    };
    assert(bits as nat == quad_of(v));
    let mut rest: u64 = bits;
    let mut tail: Vec<u8> = Vec::new();
    let mut i: usize = 0;
    // The bytes come out least significant first; they are put in order below.
    while i < 8
        invariant
            i <= 8,
            tail@.len() == i,
            forall|w: nat| #![trigger be_bytes(rest as nat, w)]
                be_bytes(bits as nat, w + i as nat) =~= be_bytes(rest as nat, w) + tail@.reverse(),
        decreases 8 - i,
    {
        let low: u8 = (rest % 256) as u8;
        let ghost before = tail@;
        let ghost prior = rest;
        tail.push(low);
        rest = rest / 256;
        proof {
            assert forall|w: nat| #![trigger be_bytes(rest as nat, w)]
                be_bytes(bits as nat, w + (i + 1) as nat) =~= be_bytes(rest as nat, w)
                    + tail@.reverse() by {
                assert(be_bytes(bits as nat, (w + 1) + i as nat) =~= be_bytes(
                    prior as nat,
                    w + 1,
                ) + before.reverse());
                assert(be_bytes(prior as nat, w + 1) =~= be_bytes(rest as nat, w).push(low));
                assert(tail@.reverse() =~= seq![low] + before.reverse());
            }
        }
        i += 1;
    }
    proof {
        assert(be_bytes(rest as nat, 0) =~= Seq::<u8>::empty());
        assert(be_bytes(bits as nat, 0 + 8) =~= be_bytes(rest as nat, 0) + tail@.reverse());
        assert(i64_wire(v) =~= tail@.reverse());
    }
    let mut k: usize = 8;
    while k > 0
        invariant
            k <= 8,
            tail@.len() == 8,
            out@ =~= old(out)@ + tail@.reverse().subrange(0, 8 - k),
        decreases k,
    {
        k -= 1;
        out.push(tail[k]);
        proof {
            assert(tail@.reverse()[7 - k] == tail@[k as int]);
        }
    }
    proof {
        assert(tail@.reverse().subrange(0, 8) =~= tail@.reverse());
    }
}

/// The signed 64-bit value at the front of `bytes`, if eight bytes are there.
pub fn take_i64(bytes: &[u8]) -> (r: Option<i64>)
    ensures
        r == i64_parse(bytes@),
{
    if bytes.len() < 8 {
        return None;
    }
    let field = slice_subrange(bytes, 0, 8);
    let mut acc: u64 = 0;
    let mut i: usize = 0;
    while i < 8
        invariant
            i <= 8,
            field@.len() == 8,
            acc as nat == be_value(field@.subrange(0, i as int)),
            (acc as nat) < byte_limit(i as nat),
        decreases 8 - i,
    {
        proof {
            let next = field@.subrange(0, i + 1);
            assert(next.drop_last() =~= field@.subrange(0, i as int));
            assert(next.last() == field@[i as int]);
            lemma_byte_limits();
            lemma_limit_grows(i as nat, 7);
            lemma_be_value_bound(next);
            lemma_limit_grows((i + 1) as nat, 8);
        }
        acc = acc * 256 + field[i] as u64;
        i += 1;
    }
    proof {
        assert(field@.subrange(0, 8) =~= field@);
        assert(field@ =~= bytes@.subrange(0, 8));
    }
    if acc < 0x8000_0000_0000_0000 {
        Some(acc as i64)
    } else {
        Some(((acc - 0x8000_0000_0000_0000) as i64) - 0x7fff_ffff_ffff_ffff - 1)
    }
}

/// More bytes hold more.
pub proof fn lemma_limit_grows(small: nat, large: nat)
    requires
        small <= large,
    ensures
        1 <= byte_limit(small) <= byte_limit(large),
    decreases large,
{
    if small < large {
        lemma_limit_grows(small, (large - 1) as nat);
    } else if small > 0 {
        lemma_limit_grows((small - 1) as nat, (small - 1) as nat);
    }
}

} // verus!
