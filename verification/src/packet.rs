//! The packets of the status query and their layout on the wire. A packet's
//! body is its tag, a variable-length integer, followed by its fields; a
//! frame is a body behind its count. Which tag means which packet depends on
//! who sends it and on the phase the connection is in.

use crate::buffer::{frame_parse, frame_wire, lemma_frame_round_trip, FrameScan};
use crate::fixed::{
    i64_parse, i64_wire, lemma_be_bytes_len, lemma_i64_round_trip, lemma_u16_round_trip, put_i64,
    put_u16, quad_of, take_i64, take_u16, u16_parse, u16_wire,
};
use crate::text::{
    lemma_text_round_trip, lemma_utf8_len, read_text, text_fits, text_parse, text_wire,
    write_text,
};
use crate::varint::{
    decode_varint, encode_varint, lemma_varint_round_trip, varint_of, varint_parse,
};
use vstd::prelude::*;
use vstd::slice::slice_subrange;
use vstd::utf8::encode_utf8;

verus! {

/// The value of a handshake's last field that asks for the status phase.
pub const NEXT_STATE_STATUS: i32 = 1;

/// A revision of the game's protocol. It is written into the handshake and
/// changes nothing else: the status packets are laid out alike in all of
/// them.
#[derive(Debug, Clone, Copy, PartialEq, Eq, Structural)]
pub enum ProtocolVersion {
    V117,
    V117R1,
    V118R1,
    V118R2,
    V119,
    V119R1,
}

impl ProtocolVersion {
    /// The number that stands for this revision on the wire.
    pub open spec fn revision_of(self) -> i32 {
        match self {
            ProtocolVersion::V117 => 755,
            ProtocolVersion::V117R1 => 756,
            ProtocolVersion::V118R1 => 757,
            ProtocolVersion::V118R2 => 758,
            ProtocolVersion::V119 => 759,
            ProtocolVersion::V119R1 => 760,
        }
    }

    /// The number that stands for this revision on the wire.
    pub fn revision(self) -> (n: i32)
        ensures
            n == self.revision_of(),
    {
        match self {
            ProtocolVersion::V117 => 755,
            ProtocolVersion::V117R1 => 756,
            ProtocolVersion::V118R1 => 757,
            ProtocolVersion::V118R2 => 758,
            ProtocolVersion::V119 => 759,
            ProtocolVersion::V119R1 => 760,
        }
    }
}

/// Who a packet is meant for.
#[derive(Debug, Clone, Copy, PartialEq, Eq, Structural)]
pub enum Direction {
    /// From the server to the client.
    ClientBound,
    /// From the client to the server.
    ServerBound,
}

/// The phase a connection is in when a packet crosses it.
#[derive(Debug, Clone, Copy, PartialEq, Eq, Structural)]
pub enum Phase {
    /// Before the handshake has been sent.
    Handshaking,
    /// After a handshake that asked for the status phase.
    Status,
}

/// A packet of the status query.
#[derive(Debug, Clone, PartialEq, Eq)]
pub enum Packet {
    /// Opens the exchange and asks for the status phase. The protocol
    /// revision is stamped in when the packet is written.
    Handshake { server_address: String, server_port: u16 },
    /// Asks for the server's status.
    StatusRequest,
    /// The server's status, as JSON text.
    StatusResponse { json_text: String },
    /// Asks the server to send the payload back.
    Ping { payload: i64 },
    /// The payload of a ping, sent back.
    Pong { payload: i64 },
}

/// A packet as the contracts speak of it: its text as a sequence of
/// characters.
pub enum PacketView {
    Handshake { server_address: Seq<char>, server_port: u16 },
    StatusRequest,
    StatusResponse { json_text: Seq<char> },
    Ping { payload: i64 },
    Pong { payload: i64 },
}

impl View for Packet {
    type V = PacketView;

    open spec fn view(&self) -> PacketView {
        match *self {
            Packet::Handshake { server_address, server_port } => PacketView::Handshake {
                server_address: server_address@,
                server_port,
            },
            Packet::StatusRequest => PacketView::StatusRequest,
            Packet::StatusResponse { json_text } => PacketView::StatusResponse {
                json_text: json_text@,
            },
            Packet::Ping { payload } => PacketView::Ping { payload },
            Packet::Pong { payload } => PacketView::Pong { payload },
        }
    }
}

/// Why a packet could not be written.
#[derive(Debug, Clone, Copy, PartialEq, Eq, Structural)]
pub enum EncodeError {
    /// A string of the packet has more UTF-16 code units than the wire
    /// allows.
    TextTooLong,
}

/// Why a frame is no packet.
#[derive(Debug, Clone, Copy, PartialEq, Eq, Structural)]
pub enum DecodeError {
    /// The tag is none that the given sender uses in the given phase.
    UnexpectedPacket,
    /// The tag or a field does not parse, or a handshake asks for another
    /// phase than the status phase.
    Malformed,
    /// Bytes follow the last field.
    TrailingBytes,
}

impl PacketView {
    /// The packet's tag.
    pub open spec fn id(self) -> i32 {
        match self {
            PacketView::Handshake { .. } => 0,
            PacketView::StatusRequest => 0,
            PacketView::StatusResponse { .. } => 0,
            PacketView::Ping { .. } => 1,
            PacketView::Pong { .. } => 1,
        }
    }

    /// Who the packet is meant for.
    pub open spec fn direction(self) -> Direction {
        match self {
            PacketView::StatusResponse { .. } => Direction::ClientBound,
            PacketView::Pong { .. } => Direction::ClientBound,
            _ => Direction::ServerBound,
        }
    }

    /// The phase in which the packet is sent.
    pub open spec fn phase(self) -> Phase {
        match self {
            PacketView::Handshake { .. } => Phase::Handshaking,
            _ => Phase::Status,
        }
    }

    /// Whether the packet's text may go on the wire.
    pub open spec fn fits(self) -> bool {
        match self {
            PacketView::Handshake { server_address, .. } => text_fits(server_address),
            PacketView::StatusResponse { json_text } => text_fits(json_text),
            _ => true,
        }
    }

    /// The wire bytes of the packet's fields, a handshake stamped with
    /// `revision`.
    pub open spec fn fields(self, revision: i32) -> Seq<u8> {
        match self {
            PacketView::Handshake { server_address, server_port } => varint_of(revision)
                + text_wire(server_address) + u16_wire(server_port) + varint_of(1),
            PacketView::StatusRequest => Seq::empty(),
            PacketView::StatusResponse { json_text } => text_wire(json_text),
            PacketView::Ping { payload } => i64_wire(payload),
            PacketView::Pong { payload } => i64_wire(payload),
        }
    }

    /// The packet's body: its tag, then its fields.
    pub open spec fn body(self, revision: i32) -> Seq<u8> {
        varint_of(self.id()) + self.fields(revision)
    }
}

/// What writing a packet's body gives: the body, if the packet's text may go
/// on the wire.
pub open spec fn body_write(p: PacketView, revision: i32) -> Result<Seq<u8>, EncodeError> {
    if p.fits() {
        Ok(p.body(revision))
    } else {
        Err(EncodeError::TextTooLong)
    }
}

/// What writing a packet gives: its body behind the body's count, if the
/// packet's text may go on the wire.
pub open spec fn packet_write(p: PacketView, revision: i32) -> Result<Seq<u8>, EncodeError> {
    if p.fits() {
        Ok(frame_wire(p.body(revision)))
    } else {
        Err(EncodeError::TextTooLong)
    }
}

/// Written bytes as the contracts speak of them.
pub open spec fn encode_model(r: Result<Vec<u8>, EncodeError>) -> Result<Seq<u8>, EncodeError> {
    match r {
        Ok(bytes) => Ok(bytes@),
        Err(e) => Err(e),
    }
}

/// A read packet as the contracts speak of it.
pub open spec fn decode_model(r: Result<Packet, DecodeError>) -> Result<PacketView, DecodeError> {
    match r {
        Ok(packet) => Ok(packet@),
        Err(e) => Err(e),
    }
}

/// The fields of a handshake: the revision, which is read and dropped, the
/// address, the port, and the next state, which has to be the status phase.
pub open spec fn handshake_parse(f: Seq<u8>) -> Result<PacketView, DecodeError> {
    match varint_parse(f) {
        Err(_) => Err(DecodeError::Malformed),
        Ok((_, w1)) => {
            let f1 = f.subrange(w1 as int, f.len() as int);
            match text_parse(f1) {
                None => Err(DecodeError::Malformed),
                Some((server_address, w2)) => {
                    let f2 = f1.subrange(w2 as int, f1.len() as int);
                    match u16_parse(f2) {
                        None => Err(DecodeError::Malformed),
                        Some(server_port) => {
                            let f3 = f2.subrange(2, f2.len() as int);
                            match varint_parse(f3) {
                                Err(_) => Err(DecodeError::Malformed),
                                Ok((next, w4)) => {
                                    if next != 1 {
                                        Err(DecodeError::Malformed)
                                    } else if w4 != f3.len() {
                                        Err(DecodeError::TrailingBytes)
                                    } else {
                                        Ok(PacketView::Handshake { server_address, server_port })
                                    }
                                },
                            }
                        },
                    }
                },
            }
        },
    }
}

/// The one field of a status response: its text.
pub open spec fn response_parse(f: Seq<u8>) -> Result<PacketView, DecodeError> {
    match text_parse(f) {
        None => Err(DecodeError::Malformed),
        Some((json_text, used)) => {
            if used != f.len() {
                Err(DecodeError::TrailingBytes)
            } else {
                Ok(PacketView::StatusResponse { json_text })
            }
        },
    }
}

/// The one field of a ping or a pong: its payload.
pub open spec fn payload_parse(f: Seq<u8>) -> Result<i64, DecodeError> {
    match i64_parse(f) {
        None => Err(DecodeError::Malformed),
        Some(payload) => {
            if f.len() != 8 {
                Err(DecodeError::TrailingBytes)
            } else {
                Ok(payload)
            }
        },
    }
}

/// The fields of the packet that `id` stands for when `direction` and
/// `phase` are as given; a tag that stands for none is refused before the
/// fields are looked at.
pub open spec fn fields_parse(id: i32, f: Seq<u8>, direction: Direction, phase: Phase) -> Result<
    PacketView,
    DecodeError,
> {
    match (direction, phase) {
        (Direction::ServerBound, Phase::Handshaking) => {
            if id == 0 {
                handshake_parse(f)
            } else {
                Err(DecodeError::UnexpectedPacket)
            }
        },
        (Direction::ServerBound, Phase::Status) => {
            if id == 0 {
                if f.len() == 0 {
                    Ok(PacketView::StatusRequest)
                } else {
                    Err(DecodeError::TrailingBytes)
                }
            } else if id == 1 {
                match payload_parse(f) {
                    Ok(payload) => Ok(PacketView::Ping { payload }),
                    Err(e) => Err(e),
                }
            } else {
                Err(DecodeError::UnexpectedPacket)
            }
        },
        (Direction::ClientBound, Phase::Status) => {
            if id == 0 {
                response_parse(f)
            } else if id == 1 {
                match payload_parse(f) {
                    Ok(payload) => Ok(PacketView::Pong { payload }),
                    Err(e) => Err(e),
                }
            } else {
                Err(DecodeError::UnexpectedPacket)
            }
        },
        (Direction::ClientBound, Phase::Handshaking) => Err(DecodeError::UnexpectedPacket),
    }
}

/// The packet that a frame's body holds when it comes from the given side in
/// the given phase, or why it holds none.
pub open spec fn body_parse(b: Seq<u8>, direction: Direction, phase: Phase) -> Result<
    PacketView,
    DecodeError,
> {
    match varint_parse(b) {
        Err(_) => Err(DecodeError::Malformed),
        Ok((id, width)) => fields_parse(
            id,
            b.subrange(width as int, b.len() as int),
            direction,
            phase,
        ),
    }
}

/// The bytes after the first `from` of `bytes`.
fn rest_of(bytes: &[u8], from: usize) -> (rest: &[u8])
    requires
        from <= bytes@.len(),
    ensures
        rest@ == bytes@.subrange(from as int, bytes@.len() as int),
{
    slice_subrange(bytes, from, bytes.len())
}

fn decode_handshake(f: &[u8]) -> (r: Result<Packet, DecodeError>)
    ensures
        decode_model(r) == handshake_parse(f@),
{
    let w1 = match decode_varint(f) {
        Ok((_, w1)) => w1,
        Err(_) => {
            return Err(DecodeError::Malformed);
        },
    };
    let f1 = rest_of(f, w1);
    let (server_address, w2) = match read_text(f1) {
        Some(found) => found,
        None => {
            return Err(DecodeError::Malformed);
        },
    };
    let f2 = rest_of(f1, w2);
    let server_port = match take_u16(f2) {
        Some(port) => port,
        None => {
            return Err(DecodeError::Malformed);
        },
    };
    let f3 = rest_of(f2, 2);
    match decode_varint(f3) {
        Err(_) => Err(DecodeError::Malformed),
        Ok((next, w4)) => {
            if next != NEXT_STATE_STATUS {
                Err(DecodeError::Malformed)
            } else if w4 != f3.len() {
                Err(DecodeError::TrailingBytes)
            } else {
                Ok(Packet::Handshake { server_address, server_port })
            }
        },
    }
}

fn decode_response(f: &[u8]) -> (r: Result<Packet, DecodeError>)
    ensures
        decode_model(r) == response_parse(f@),
{
    match read_text(f) {
        None => Err(DecodeError::Malformed),
        Some((json_text, used)) => {
            if used != f.len() {
                Err(DecodeError::TrailingBytes)
            } else {
                Ok(Packet::StatusResponse { json_text })
            }
        },
    }
}

fn decode_payload(f: &[u8]) -> (r: Result<i64, DecodeError>)
    ensures
        r == payload_parse(f@),
{
    match take_i64(f) {
        None => Err(DecodeError::Malformed),
        Some(payload) => {
            if f.len() != 8 {
                Err(DecodeError::TrailingBytes)
            } else {
                Ok(payload)
            }
        },
    }
}

/// Reads the packet that a frame's body holds. `frame` is the frame without
/// its count, as the buffer hands it out; `direction` says who sent it and
/// `phase` in which phase. A tag that the sender does not use in that phase
/// is refused, so that no frame is taken for a packet that it is not.
pub fn decode(frame: &[u8], direction: Direction, phase: Phase) -> (r: Result<Packet, DecodeError>)
    ensures
        decode_model(r) == body_parse(frame@, direction, phase),
{
    let (id, width) = match decode_varint(frame) {
        Ok(found) => found,
        Err(_) => {
            return Err(DecodeError::Malformed);
        },
    };
    let f = rest_of(frame, width);
    match (direction, phase) {
        (Direction::ServerBound, Phase::Handshaking) => {
            if id == 0 {
                decode_handshake(f)
            } else {
                Err(DecodeError::UnexpectedPacket)
            }
        },
        (Direction::ServerBound, Phase::Status) => {
            if id == 0 {
                if f.len() == 0 {
                    Ok(Packet::StatusRequest)
                } else {
                    Err(DecodeError::TrailingBytes)
                }
            } else if id == 1 {
                match decode_payload(f) {
                    Ok(payload) => Ok(Packet::Ping { payload }),
                    Err(e) => Err(e),
                }
            } else {
                Err(DecodeError::UnexpectedPacket)
            }
        },
        (Direction::ClientBound, Phase::Status) => {
            if id == 0 {
                decode_response(f)
            } else if id == 1 {
                match decode_payload(f) {
                    Ok(payload) => Ok(Packet::Pong { payload }),
                    Err(e) => Err(e),
                }
            } else {
                Err(DecodeError::UnexpectedPacket)
            }
        },
        (Direction::ClientBound, Phase::Handshaking) => Err(DecodeError::UnexpectedPacket),
    }
}

/// Writes a packet's body: its tag, then its fields, a handshake stamped
/// with the revision of `version`.
pub fn encode_body(packet: &Packet, version: ProtocolVersion) -> (r: Result<Vec<u8>, EncodeError>)
    ensures
        encode_model(r) == body_write(packet@, version.revision_of()),
        r matches Ok(bytes) ==> bytes@.len() <= MAX_BODY_BYTES,
{
    match packet {
        Packet::Handshake { server_address, server_port } => {
            let mut text = match write_text(server_address) {
                Some(text) => text,
                None => {
                    return Err(EncodeError::TextTooLong);
                },
            };
            proof {
                lemma_utf8_len(server_address@);
                lemma_varint_round_trip(encode_utf8(server_address@).len() as i32, Seq::empty());
                lemma_be_bytes_len(*server_port as nat, 2);
            }
            let mut body = encode_varint(0);
            let mut stamp = encode_varint(version.revision());
            let mut next = encode_varint(NEXT_STATE_STATUS);
            body.append(&mut stamp);
            body.append(&mut text);
            put_u16(&mut body, *server_port);
            body.append(&mut next);
            proof {
                assert(body@ =~= packet@.body(version.revision_of()));
            }
            Ok(body)
        },
        Packet::StatusRequest => {
            let body = encode_varint(0);
            proof {
                assert(body@ =~= packet@.body(version.revision_of()));
            }
            Ok(body)
        },
        Packet::StatusResponse { json_text } => {
            let mut text = match write_text(json_text) {
                Some(text) => text,
                None => {
                    return Err(EncodeError::TextTooLong);
                },
            };
            proof {
                lemma_utf8_len(json_text@);
                lemma_varint_round_trip(encode_utf8(json_text@).len() as i32, Seq::empty());
            }
            let mut body = encode_varint(0);
            body.append(&mut text);
            Ok(body)
        },
        Packet::Ping { payload } => {
            let mut body = encode_varint(1);
            put_i64(&mut body, *payload);
            proof {
                lemma_be_bytes_len(quad_of(*payload), 8);
            }
            Ok(body)
        },
        Packet::Pong { payload } => {
            let mut body = encode_varint(1);
            put_i64(&mut body, *payload);
            proof {
                lemma_be_bytes_len(quad_of(*payload), 8);
            }
            Ok(body)
        },
    }
}

/// No packet's body takes more bytes than this.
pub const MAX_BODY_BYTES: usize = 98323;

/// Writes a packet as it goes on the wire: the count of its body, then the
/// body, a handshake stamped with the revision of `version`. It fails on
/// text that is too long for the wire and on nothing else.
pub fn encode(packet: &Packet, version: ProtocolVersion) -> (r: Result<Vec<u8>, EncodeError>)
    ensures
        encode_model(r) == packet_write(packet@, version.revision_of()),
{
    match encode_body(packet, version) {
        Err(e) => Err(e),
        Ok(body) => {
            let mut body = body;
            let mut out = encode_varint(body.len() as i32);
            out.append(&mut body);
            Ok(out)
        },
    }
}

/// A packet that was written and framed comes out of the frame and is read
/// back as it was, whatever revision it was stamped with: first the frame's
/// count gives the body, then the body gives the packet.
pub proof fn lemma_decode_encode(p: PacketView, revision: i32, more: Seq<u8>)
    requires
        p.fits(),
    ensures
        body_parse(p.body(revision), p.direction(), p.phase()) == Ok::<PacketView, DecodeError>(p),
        packet_write(p, revision) is Ok,
        frame_parse(packet_write(p, revision)->Ok_0 + more) == (FrameScan::Ready {
            body: p.body(revision),
            used: frame_wire(p.body(revision)).len(),
        }),
{
    let fields = p.fields(revision);
    let body = p.body(revision);
    lemma_varint_round_trip(p.id(), fields);
    let width = varint_of(p.id()).len();
    assert(body.subrange(width as int, body.len() as int) =~= fields);
    match p {
        PacketView::Handshake { server_address, server_port } => {
            let tail3 = varint_of(1);
            let tail2 = u16_wire(server_port) + tail3;
            let tail1 = text_wire(server_address) + tail2;
            assert(fields =~= varint_of(revision) + tail1);
            lemma_varint_round_trip(revision, tail1);
            let w1 = varint_of(revision).len();
            assert(fields.subrange(w1 as int, fields.len() as int) =~= tail1);
            lemma_text_round_trip(server_address, tail2);
            let w2 = text_wire(server_address).len();
            assert(tail1.subrange(w2 as int, tail1.len() as int) =~= tail2);
            lemma_u16_round_trip(server_port, tail3);
            assert(tail2.subrange(2, tail2.len() as int) =~= tail3);
            lemma_varint_round_trip(1, Seq::empty());
            assert(tail3 + Seq::<u8>::empty() =~= tail3);
            lemma_utf8_len(server_address);
            lemma_varint_round_trip(encode_utf8(server_address).len() as i32, Seq::empty());
        },
        PacketView::StatusRequest => {},
        PacketView::StatusResponse { json_text } => {
            lemma_text_round_trip(json_text, Seq::empty());
            assert(fields + Seq::<u8>::empty() =~= fields);
            lemma_utf8_len(json_text);
            lemma_varint_round_trip(encode_utf8(json_text).len() as i32, Seq::empty());
        },
        PacketView::Ping { payload } => {
            lemma_i64_round_trip(payload, Seq::empty());
            assert(fields + Seq::<u8>::empty() =~= fields);
        },
        PacketView::Pong { payload } => {
            lemma_i64_round_trip(payload, Seq::empty());
            assert(fields + Seq::<u8>::empty() =~= fields);
        },
    }
    lemma_frame_round_trip(body, more);
}

/// A frame is read only as a packet of the side and the phase that were
/// asked for: no frame passes for a packet that it is not.
pub proof fn lemma_decoded_packet_belongs(b: Seq<u8>, direction: Direction, phase: Phase)
    ensures
        body_parse(b, direction, phase) matches Ok(p) ==> p.direction() == direction && p.phase()
            == phase && p.fits() && varint_parse(b) is Ok && varint_parse(b)->Ok_0.0 == p.id(),
{
}

/// No frame of the server is read while the handshake is still to come.
pub proof fn lemma_nothing_from_server_before_status(b: Seq<u8>)
    ensures
        body_parse(b, Direction::ClientBound, Phase::Handshaking) is Err,
{
}

} // verus!
