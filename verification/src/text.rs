//! Text on the wire: the UTF-8 bytes of a string behind their count, which is
//! written as a variable-length integer. The protocol allows a string 32767
//! UTF-16 code units and the reader refuses a count above three times that,
//! before it looks at the bytes. Writing and reading are mc_protocol's.

use crate::varint::{lemma_scan_width, lemma_varint_round_trip, varint_of, varint_parse};
use std::io::Cursor;
use vstd::prelude::*;
use vstd::utf8::*;

verus! {

/// The most UTF-16 code units a string on the wire may have.
pub const MAX_TEXT_UNITS: usize = 32767;

/// The most UTF-8 bytes a reader accepts in a string's count.
pub const MAX_TEXT_BYTES: usize = 98301;

/// The number of UTF-16 code units that `s` takes: two for a character
/// outside the basic plane, one for any other.
pub open spec fn utf16_units(s: Seq<char>) -> nat
    decreases s.len(),
{
    if s.len() == 0 {
        0
    } else {
        let first: nat = if s[0] as u32 >= 0x1_0000 {
            2
        } else {
            1
        };
        first + utf16_units(s.drop_first())
    }
}

/// Whether `s` may go on the wire.
pub open spec fn text_fits(s: Seq<char>) -> bool {
    utf16_units(s) <= MAX_TEXT_UNITS
}

/// The wire bytes of `s`: the count of its UTF-8 bytes, then the bytes.
pub open spec fn text_wire(s: Seq<char>) -> Seq<u8> {
    varint_of(encode_utf8(s).len() as i32) + encode_utf8(s)
}

/// What writing `s` gives: its wire bytes if it may go on the wire.
pub open spec fn text_write(s: Seq<char>) -> Option<Seq<u8>> {
    if text_fits(s) {
        Some(text_wire(s))
    } else {
        None
    }
}

/// Reads a string from the front of `b`: the string and the number of bytes
/// it takes with its count. There is none where the count does not parse, is
/// negative or above `MAX_TEXT_BYTES`, where fewer bytes follow than it
/// says, where they are not UTF-8, or where the string is too long.
pub open spec fn text_parse(b: Seq<u8>) -> Option<(Seq<char>, nat)> {
    match varint_parse(b) {
        Ok((count, width)) => {
            let end = width + count;
            if 0 <= count <= MAX_TEXT_BYTES && end <= b.len() && valid_utf8(b.subrange(width as int, end))
                && text_fits(decode_utf8(b.subrange(width as int, end))) {
                Some((decode_utf8(b.subrange(width as int, end)), end as nat))
            } else {
                None
            }
        },
        Err(_) => None,
    }
}

/// Written bytes as the contracts speak of them.
pub open spec fn write_model(r: Option<Vec<u8>>) -> Option<Seq<u8>> {
    match r {
        Some(bytes) => Some(bytes@),
        None => None,
    }
}

/// A read string as the contracts speak of it.
pub open spec fn text_model(r: Option<(String, usize)>) -> Option<(Seq<char>, nat)> {
    match r {
        Some((s, used)) => Some((s@, used as nat)),
        None => None,
    }
}

/// `Serialize::serialize` of mc_protocol for `String`, into an empty vector.
/// The crate counts the string's UTF-16 code units, fails above 32767 of
/// them, and else writes the byte length as a variable-length integer and
/// then the UTF-8 bytes.
#[verifier::external_body]
fn crate_text_write(s: &String) -> (r: Option<Vec<u8>>)
    ensures
        write_model(r) == text_write(s@),
{
    let mut out: Vec<u8> = Vec::new();
    match mc_protocol::ser::Serialize::serialize(s, &mut out) {
        Ok(()) => Some(out),
        Err(_) => None,
    }
}

/// `Deserialize::deserialize` of mc_protocol for `String`, on a cursor over
/// `bytes`: the string and the cursor's position after it. The crate reads
/// the count, refuses a negative one and one above 98301, reads that many
/// bytes, refuses them unless they are UTF-8, and refuses a string of more
/// than 32767 UTF-16 code units.
#[verifier::external_body]
fn crate_text_read(bytes: &[u8]) -> (r: Option<(String, usize)>)
    ensures
        text_model(r) == text_parse(bytes@),
{
    let mut cursor = Cursor::new(bytes);
    let read: Result<String, mc_protocol::ser::SerializationError> =
        mc_protocol::ser::Deserialize::deserialize(&mut cursor);
    match read {
        Ok(s) => Some((s, cursor.position() as usize)),
        Err(_) => None,
    }
}

/// The wire bytes of `s`, or nothing if `s` is too long for the wire.
pub fn write_text(s: &String) -> (r: Option<Vec<u8>>)
    ensures
        write_model(r) == text_write(s@),
{
    crate_text_write(s)
}

/// Reads a string from the front of `bytes`: the string and the number of
/// bytes it takes with its count.
pub fn read_text(bytes: &[u8]) -> (r: Option<(String, usize)>)
    ensures
        text_model(r) == text_parse(bytes@),
        r matches Some(found) ==> 1 <= found.1 <= bytes@.len(),
{
    proof {
        lemma_scan_width(bytes@, 5);
    }
    crate_text_read(bytes)
}

/// A character takes at most three UTF-8 bytes for each of its UTF-16 code
/// units.
pub proof fn lemma_utf8_len(s: Seq<char>)
    ensures
        encode_utf8(s).len() <= 3 * utf16_units(s),
    decreases s.len(),
{
    if s.len() > 0 {
        lemma_utf8_len(s.drop_first());
        char_is_scalar(s[0]);
    }
}

/// Reading the wire bytes of a string that fits, whatever follows them,
/// gives the string and the number of those bytes.
pub proof fn lemma_text_round_trip(s: Seq<char>, more: Seq<u8>)
    requires
        text_fits(s),
    ensures
        text_parse(text_wire(s) + more) == Some((s, text_wire(s).len())),
{
    let body = encode_utf8(s);
    let count = body.len() as i32;
    lemma_utf8_len(s);
    assert(count == body.len());
    let head = varint_of(count);
    let all = text_wire(s) + more;
    assert(all =~= head + (body + more));
    lemma_varint_round_trip(count, body + more);
    let width = head.len();
    assert(all.subrange(width as int, width + count) =~= body);
    encode_utf8_valid_utf8(s);
    encode_utf8_decode_utf8(s);
}

} // verus!
