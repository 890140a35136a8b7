//! Variable-length integers: base-128 groups, least significant first, with
//! the high bit of a byte saying that another byte follows. A 32-bit value
//! takes one to five bytes. The byte-level work is mc_protocol's; this module
//! states what it computes and proves what the rest of the library needs.

use std::io::Cursor;
use vstd::prelude::*;

verus! {

/// Why a variable-length integer could not be read.
#[derive(Debug, Clone, Copy, PartialEq, Eq, Structural)]
pub enum VarintError {
    /// The bytes end before a byte with a clear high bit was seen.
    Incomplete,
    /// Five bytes in a row have their high bit set.
    Overlong,
}

/// What a scan of the first bytes of a sequence finds.
pub enum VarintScan {
    /// A terminated integer: the sum of its seven-bit groups and the number
    /// of bytes it takes.
    Value { bits: nat, width: nat },
    /// Every byte asks for another, and the bytes end.
    Incomplete,
    /// More bytes ask for another than the scan allows.
    Overlong,
}

/// The 32 bits of `v` read as an unsigned number (two's complement).
pub open spec fn word_of(v: i32) -> nat {
    if v >= 0 {
        v as nat
    } else {
        (v + 0x1_0000_0000) as nat
    }
}

/// The signed number whose 32 bits are the low 32 bits of `n`.
pub open spec fn signed_of(n: nat) -> i32 {
    let low = n % 0x1_0000_0000;
    if low < 0x8000_0000 {
        low as i32
    } else {
        (low - 0x1_0000_0000) as i32
    }
}

/// The bytes of `n`: seven bits per byte, least significant group first,
/// every byte but the last with its high bit set.
pub open spec fn varint_bytes(n: nat) -> Seq<u8>
    decreases n,
{
    if n < 128 {
        seq![n as u8]
    } else {
        seq![(n % 128 + 128) as u8] + varint_bytes(n / 128)
    }
}

/// The wire bytes of a 32-bit value.
pub open spec fn varint_of(v: i32) -> Seq<u8> {
    varint_bytes(word_of(v))
}

/// Reads one integer from the front of `b`, looking at no more than `budget`
/// bytes.
pub open spec fn varint_scan(b: Seq<u8>, budget: nat) -> VarintScan
    decreases budget,
{
    if budget == 0 {
        VarintScan::Overlong
    } else if b.len() == 0 {
        VarintScan::Incomplete
    } else if b[0] < 128 {
        VarintScan::Value { bits: b[0] as nat, width: 1 }
    } else {
        match varint_scan(b.drop_first(), (budget - 1) as nat) {
            VarintScan::Value { bits, width } => VarintScan::Value {
                bits: (b[0] - 128) as nat + 128 * bits,
                width: width + 1,
            },
            other => other,
        }
    }
}

/// Reads a 32-bit value from the front of `b`: the value and the number of
/// bytes it takes, or the reason why there is none. Bits above the 32nd are
/// dropped, as a fifth byte can carry three of them.
pub open spec fn varint_parse(b: Seq<u8>) -> Result<(i32, nat), VarintError> {
    match varint_scan(b, 5) {
        VarintScan::Value { bits, width } => Ok((signed_of(bits), width)),
        VarintScan::Incomplete => Err(VarintError::Incomplete),
        VarintScan::Overlong => Err(VarintError::Overlong),
    }
}

/// An executable reading as the contracts speak of it: the count of bytes as
/// a natural number.
pub open spec fn read_model(r: Result<(i32, usize), VarintError>) -> Result<(i32, nat), VarintError> {
    match r {
        Ok((v, n)) => Ok((v, n as nat)),
        Err(e) => Err(e),
    }
}

/// 128 to the power `k`: the first number that `k` groups cannot hold.
pub open spec fn group_limit(k: nat) -> nat
    decreases k,
{
    if k == 0 {
        1
    } else {
        128 * group_limit((k - 1) as nat)
    }
}

/// `VarInt::encode` of mc_protocol: the bytes of a 32-bit value. The crate
/// writes the value's unsigned 32-bit pattern in groups of seven bits, low
/// group first, and stops at the first group after which nothing is left.
#[verifier::external_body]
fn crate_varint_encode(v: i32) -> (out: Vec<u8>)
    ensures
        out@ == varint_of(v),
{
    let (buf, len) = mc_protocol::varint::VarInt(v).encode();
    buf[..len].to_vec()
}

/// `VarInt::read_sync` of mc_protocol on a cursor over `bytes`: the value and
/// the cursor's position after it. The crate ORs each byte's low seven bits
/// into a 32-bit value at a shift that grows by seven, stops at the first
/// byte with a clear high bit, gives `TooLong` once five bytes asked for
/// more, and an I/O error when the bytes end first.
#[verifier::external_body]
fn crate_varint_read(bytes: &[u8]) -> (r: Result<(i32, usize), VarintError>)
    ensures
        read_model(r) == varint_parse(bytes@),
{
    let mut cursor = Cursor::new(bytes);
    match mc_protocol::varint::VarInt::read_sync(&mut cursor) {
        Ok(value) => Ok((value.0, cursor.position() as usize)),
        Err(mc_protocol::varint::VarIntError::TooLong) => Err(VarintError::Overlong),
        Err(_) => Err(VarintError::Incomplete),
    }
}

/// The wire bytes of `v`: between one and five of them.
pub fn encode_varint(v: i32) -> (out: Vec<u8>)
    ensures
        out@ == varint_of(v),
        1 <= out@.len() <= 5,
{
    proof {
        lemma_group_limits();
        lemma_varint_bytes_len(word_of(v), 5);
    }
    crate_varint_encode(v)
}

/// Reads a value from the front of `bytes`: the value and the number of bytes
/// it takes. Bytes after the value are not looked at.
pub fn decode_varint(bytes: &[u8]) -> (r: Result<(i32, usize), VarintError>)
    ensures
        read_model(r) == varint_parse(bytes@),
        r matches Ok(found) ==> 1 <= found.1 <= 5 && found.1 <= bytes@.len(),
{
    proof {
        lemma_scan_width(bytes@, 5);
    }
    crate_varint_read(bytes)
}

/// The first limits, written out.
pub proof fn lemma_group_limits()
    ensures
        group_limit(0) == 1,
        group_limit(1) == 128,
        group_limit(2) == 0x4000,
        group_limit(3) == 0x20_0000,
        group_limit(4) == 0x1000_0000,
        group_limit(5) == 0x8_0000_0000,
{
    reveal_with_fuel(group_limit, 6);
}

/// A number below the limit of `k` groups takes at most `k` bytes, and no
/// number takes none.
pub proof fn lemma_varint_bytes_len(n: nat, k: nat)
    requires
        k >= 1,
        n < group_limit(k),
    ensures
        1 <= varint_bytes(n).len() <= k,
    decreases k,
{
    if n >= 128 {
        assert(k >= 2) by {
            reveal_with_fuel(group_limit, 2);
        }
        assert(n / 128 < group_limit((k - 1) as nat));
        lemma_varint_bytes_len(n / 128, (k - 1) as nat);
    }
}

/// A value found by a scan takes at least one byte, no more than the budget,
/// and no more than there are.
pub proof fn lemma_scan_width(b: Seq<u8>, budget: nat)
    ensures
        varint_scan(b, budget) matches VarintScan::Value { bits, width } ==> 1 <= width <= budget
            && width <= b.len() && bits < group_limit(width),
        varint_scan(b, budget) is Incomplete ==> b.len() < budget,
    decreases budget,
{
    reveal_with_fuel(group_limit, 2);
    if budget > 0 && b.len() > 0 && b[0] >= 128 {
        lemma_scan_width(b.drop_first(), (budget - 1) as nat);
    }
}

/// Bytes that follow a terminated integer, or five bytes that all ask for
/// more, do not change what a scan finds.
pub proof fn lemma_scan_prefix(b: Seq<u8>, more: Seq<u8>, budget: nat)
    requires
        !(varint_scan(b, budget) is Incomplete),
    ensures
        varint_scan(b + more, budget) == varint_scan(b, budget),
    decreases budget,
{
    if budget > 0 && b.len() > 0 {
        assert((b + more)[0] == b[0]);
        if b[0] >= 128 {
            assert((b + more).drop_first() =~= b.drop_first() + more);
            lemma_scan_prefix(b.drop_first(), more, (budget - 1) as nat);
        }
    }
}

/// Scanning the bytes of `n`, whatever follows them, finds `n` again.
pub proof fn lemma_scan_bytes(n: nat, more: Seq<u8>, budget: nat)
    requires
        budget >= 1,
        n < group_limit(budget),
    ensures
        varint_scan(varint_bytes(n) + more, budget) == (VarintScan::Value {
            bits: n,
            width: varint_bytes(n).len(),
        }),
    decreases budget,
{
    let b = varint_bytes(n) + more;
    if n < 128 {
        assert(b[0] == n as u8);
    } else {
        assert(budget >= 2) by {
            reveal_with_fuel(group_limit, 2);
        }
        let head = (n % 128 + 128) as u8;
        assert(b[0] == head);
        assert(b.drop_first() =~= varint_bytes(n / 128) + more);
        assert(n / 128 < group_limit((budget - 1) as nat));
        lemma_scan_bytes(n / 128, more, (budget - 1) as nat);
        assert((head - 128) as nat + 128 * (n / 128) == n);
    }
}

/// The 32-bit pattern of a value gives the value back.
pub proof fn lemma_word_round_trip(v: i32)
    ensures
        word_of(v) < 0x1_0000_0000,
        signed_of(word_of(v)) == v,
{
}

/// Reading the wire bytes of `v`, whatever follows them, gives `v` and the
/// number of those bytes.
pub proof fn lemma_varint_round_trip(v: i32, more: Seq<u8>)
    ensures
        varint_parse(varint_of(v) + more) == Ok::<(i32, nat), VarintError>(
            (v, varint_of(v).len()),
        ),
        1 <= varint_of(v).len() <= 5,
{
    lemma_group_limits();
    lemma_word_round_trip(v);
    lemma_scan_bytes(word_of(v), more, 5);
    lemma_varint_bytes_len(word_of(v), 5);
}

/// What was read from a sequence is read from any sequence that begins with
/// it, and five bytes that ask for more are refused whatever follows.
pub proof fn lemma_varint_parse_prefix(b: Seq<u8>, more: Seq<u8>)
    requires
        varint_parse(b) != Err::<(i32, nat), VarintError>(VarintError::Incomplete),
    ensures
        varint_parse(b + more) == varint_parse(b),
{
    lemma_scan_prefix(b, more, 5);
}

} // verus!
