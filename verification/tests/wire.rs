use tracker_discord_bot::buffer::{BufferState, PacketBuffer};
use tracker_discord_bot::fixed::{put_i64, put_u16, take_i64, take_u16};
use tracker_discord_bot::packet::{
    decode, encode, encode_body, DecodeError, Direction, EncodeError, Packet, Phase,
    ProtocolVersion,
};
use tracker_discord_bot::text::{read_text, write_text};
use tracker_discord_bot::varint::{decode_varint, encode_varint, VarintError};

fn reference_varint(v: i32) -> Vec<u8> {
    let mut bits = v as u32;
    let mut out = Vec::new();
    loop {
        if bits < 128 {
            out.push(bits as u8);
            return out;
        }
        out.push((bits % 128) as u8 + 128);
        bits /= 128;
    }
}

#[test]
fn varint_of_300_is_two_bytes() {
    assert_eq!(encode_varint(300), vec![0xAC, 0x02]);
    assert_eq!(decode_varint(&[0xAC, 0x02]), Ok((300, 2)));
}

#[test]
fn varint_small_values_take_one_byte() {
    assert_eq!(encode_varint(0), vec![0x00]);
    assert_eq!(encode_varint(1), vec![0x01]);
    assert_eq!(encode_varint(127), vec![0x7F]);
    assert_eq!(encode_varint(128), vec![0x80, 0x01]);
}

#[test]
fn varint_extremes() {
    assert_eq!(encode_varint(i32::MAX), vec![0xFF, 0xFF, 0xFF, 0xFF, 0x07]);
    assert_eq!(encode_varint(-1), vec![0xFF, 0xFF, 0xFF, 0xFF, 0x0F]);
    assert_eq!(encode_varint(i32::MIN), vec![0x80, 0x80, 0x80, 0x80, 0x08]);
    assert_eq!(decode_varint(&[0xFF, 0xFF, 0xFF, 0xFF, 0x0F]), Ok((-1, 5)));
    assert_eq!(decode_varint(&[0x80, 0x80, 0x80, 0x80, 0x08]), Ok((i32::MIN, 5)));
}

#[test]
fn varint_matches_the_rule_on_many_values() {
    let mut v: i64 = i32::MIN as i64;
    while v <= i32::MAX as i64 {
        let value = v as i32;
        let bytes = encode_varint(value);
        assert_eq!(bytes, reference_varint(value));
        assert_eq!(decode_varint(&bytes), Ok((value, bytes.len())));
        v += 7_654_321;
    }
}

#[test]
fn varint_of_six_bytes_is_rejected() {
    assert_eq!(
        decode_varint(&[0x80, 0x80, 0x80, 0x80, 0x80, 0x01]),
        Err(VarintError::Overlong)
    );
    assert_eq!(
        decode_varint(&[0xFF, 0xFF, 0xFF, 0xFF, 0xFF]),
        Err(VarintError::Overlong)
    );
}

#[test]
fn varint_that_ends_early_is_incomplete() {
    assert_eq!(decode_varint(&[]), Err(VarintError::Incomplete));
    assert_eq!(decode_varint(&[0x80]), Err(VarintError::Incomplete));
    assert_eq!(
        decode_varint(&[0x80, 0x80, 0x80, 0x80]),
        Err(VarintError::Incomplete)
    );
}

#[test]
fn varint_stops_at_the_first_clear_high_bit() {
    assert_eq!(decode_varint(&[0x05, 0xFF, 0xFF]), Ok((5, 1)));
    assert_eq!(decode_varint(&[0xAC, 0x02, 0x80]), Ok((300, 2)));
}

#[test]
fn varint_drops_bits_above_the_32nd() {
    assert_eq!(decode_varint(&[0xFF, 0xFF, 0xFF, 0xFF, 0x7F]), Ok((-1, 5)));
    assert_eq!(decode_varint(&[0x80, 0x80, 0x80, 0x80, 0x10]), Ok((0, 5)));
}

#[test]
fn varint_reads_encodings_that_are_longer_than_needed() {
    assert_eq!(decode_varint(&[0x80, 0x00]), Ok((0, 2)));
    assert_eq!(decode_varint(&[0x81, 0x80, 0x00]), Ok((1, 3)));
}

#[test]
fn port_is_big_endian() {
    let mut out = vec![9u8];
    put_u16(&mut out, 25565);
    assert_eq!(out, vec![9, 0x63, 0xDD]);
    assert_eq!(take_u16(&[0x63, 0xDD, 0x01]), Some(25565));
    assert_eq!(take_u16(&[0xFF, 0xFF]), Some(65535));
    assert_eq!(take_u16(&[0x63]), None);
    assert_eq!(take_u16(&[]), None);
}

#[test]
fn payload_is_eight_big_endian_bytes() {
    let mut out = Vec::new();
    put_i64(&mut out, 1);
    assert_eq!(out, vec![0, 0, 0, 0, 0, 0, 0, 1]);
    let mut out = Vec::new();
    put_i64(&mut out, -1);
    assert_eq!(out, vec![0xFF; 8]);
    let mut out = Vec::new();
    put_i64(&mut out, 0x0102_0304_0506_0708);
    assert_eq!(out, vec![1, 2, 3, 4, 5, 6, 7, 8]);
    let mut out = Vec::new();
    put_i64(&mut out, i64::MIN);
    assert_eq!(out, vec![0x80, 0, 0, 0, 0, 0, 0, 0]);
}

#[test]
fn payload_round_trips() {
    for v in [0i64, 1, -1, 42, -42, i64::MAX, i64::MIN, 1_666_000_000_123] {
        let mut out = Vec::new();
        put_i64(&mut out, v);
        assert_eq!(out, v.to_be_bytes().to_vec());
        assert_eq!(take_i64(&out), Some(v));
    }
    assert_eq!(take_i64(&[0, 0, 0, 0, 0, 0, 1]), None);
    assert_eq!(take_i64(&[0, 0, 0, 0, 0, 0, 0, 2, 9]), Some(2));
}

#[test]
fn text_is_counted_utf8() {
    assert_eq!(write_text(&String::from("abc")), Some(vec![3, b'a', b'b', b'c']));
    assert_eq!(write_text(&String::new()), Some(vec![0]));
    let accented = String::from("h\u{e9}");
    assert_eq!(write_text(&accented), Some(vec![3, b'h', 0xC3, 0xA9]));
    assert_eq!(read_text(&[3, b'h', 0xC3, 0xA9, 7]), Some((accented, 4)));
}

#[test]
fn text_count_is_a_varint() {
    let long = "x".repeat(300);
    let bytes = write_text(&long).unwrap();
    assert_eq!(&bytes[..2], &[0xAC, 0x02]);
    assert_eq!(bytes.len(), 302);
    assert_eq!(read_text(&bytes), Some((long, 302)));
}

#[test]
fn text_at_the_limit_and_over() {
    let most = "x".repeat(32767);
    assert!(write_text(&most).is_some());
    assert_eq!(read_text(&write_text(&most).unwrap()), Some((most, 32770)));
    let over = "x".repeat(32768);
    assert_eq!(write_text(&over), None);
    let wide = "\u{20ac}".repeat(32767);
    let bytes = write_text(&wide).unwrap();
    assert_eq!(bytes.len(), 3 + 98301);
    assert_eq!(read_text(&bytes), Some((wide, 98304)));
}

#[test]
fn text_outside_the_basic_plane_counts_double() {
    let fits = "\u{1F600}".repeat(16383);
    assert!(write_text(&fits).is_some());
    let over = "\u{1F600}".repeat(16384);
    assert_eq!(write_text(&over), None);
}

#[test]
fn text_reader_refuses_what_is_no_text() {
    assert_eq!(read_text(&[]), None);
    assert_eq!(read_text(&[3, b'a', b'b']), None);
    assert_eq!(read_text(&[2, 0xC3, 0x28]), None);
    assert_eq!(read_text(&[0xFF, 0xFF, 0xFF, 0xFF, 0x0F]), None);
    assert_eq!(read_text(&[0x80, 0x80, 0x80, 0x80, 0x80, 0x01]), None);
    let mut over_count = encode_varint(98302);
    over_count.extend(vec![b'x'; 98302]);
    assert_eq!(read_text(&over_count), None);
    let mut over_units = encode_varint(32768);
    over_units.extend(vec![b'x'; 32768]);
    assert_eq!(read_text(&over_units), None);
}

#[test]
fn handshake_layout() {
    let packet = Packet::Handshake {
        server_address: String::from("localhost"),
        server_port: 25565,
    };
    let mut expected = vec![16u8, 0x00, 0xF6, 0x05, 9];
    expected.extend_from_slice(b"localhost");
    expected.extend_from_slice(&[0x63, 0xDD, 0x01]);
    assert_eq!(encode(&packet, ProtocolVersion::V118R2), Ok(expected.clone()));
    assert_eq!(
        encode_body(&packet, ProtocolVersion::V118R2),
        Ok(expected[1..].to_vec())
    );
}

#[test]
fn handshake_carries_the_revision() {
    let packet = Packet::Handshake {
        server_address: String::from("a"),
        server_port: 1,
    };
    assert_eq!(
        encode(&packet, ProtocolVersion::V119),
        Ok(vec![8, 0x00, 0xF7, 0x05, 1, b'a', 0, 1, 1])
    );
    assert_eq!(ProtocolVersion::V117.revision(), 755);
    assert_eq!(ProtocolVersion::V117R1.revision(), 756);
    assert_eq!(ProtocolVersion::V118R1.revision(), 757);
    assert_eq!(ProtocolVersion::V118R2.revision(), 758);
    assert_eq!(ProtocolVersion::V119.revision(), 759);
    assert_eq!(ProtocolVersion::V119R1.revision(), 760);
}

#[test]
fn status_packets_layout() {
    let v = ProtocolVersion::V118R2;
    assert_eq!(encode(&Packet::StatusRequest, v), Ok(vec![1, 0x00]));
    assert_eq!(
        encode(&Packet::Ping { payload: 258 }, v),
        Ok(vec![9, 0x01, 0, 0, 0, 0, 0, 0, 1, 2])
    );
    assert_eq!(
        encode(&Packet::Pong { payload: -2 }, v),
        Ok(vec![9, 0x01, 0xFF, 0xFF, 0xFF, 0xFF, 0xFF, 0xFF, 0xFF, 0xFE])
    );
    assert_eq!(
        encode(&Packet::StatusResponse { json_text: String::from("{}") }, v),
        Ok(vec![4, 0x00, 2, b'{', b'}'])
    );
}

#[test]
fn encode_refuses_text_that_is_too_long() {
    let v = ProtocolVersion::V118R2;
    let long = "x".repeat(32768);
    assert_eq!(
        encode(&Packet::StatusResponse { json_text: long.clone() }, v),
        Err(EncodeError::TextTooLong)
    );
    assert_eq!(
        encode(&Packet::Handshake { server_address: long, server_port: 1 }, v),
        Err(EncodeError::TextTooLong)
    );
}

fn round_trip(packet: Packet, direction: Direction, phase: Phase) {
    for version in [ProtocolVersion::V117, ProtocolVersion::V118R2, ProtocolVersion::V119R1] {
        let wire = encode(&packet, version).unwrap();
        let mut buffer = PacketBuffer::new();
        buffer.extend(&wire);
        let frame = match buffer.poll() {
            BufferState::Ready(frame) => frame,
            other => panic!("no frame: {:?}", other),
        };
        assert_eq!(frame, encode_body(&packet, version).unwrap());
        assert_eq!(buffer.len(), 0);
        assert_eq!(decode(&frame, direction, phase), Ok(packet.clone()));
    }
}

#[test]
fn every_packet_round_trips() {
    round_trip(
        Packet::Handshake { server_address: String::from("mh-prd.minehut.com"), server_port: 25565 },
        Direction::ServerBound,
        Phase::Handshaking,
    );
    round_trip(
        Packet::Handshake { server_address: String::new(), server_port: 0 },
        Direction::ServerBound,
        Phase::Handshaking,
    );
    round_trip(Packet::StatusRequest, Direction::ServerBound, Phase::Status);
    round_trip(Packet::Ping { payload: i64::MIN }, Direction::ServerBound, Phase::Status);
    round_trip(Packet::Ping { payload: 1_666_000_000_123 }, Direction::ServerBound, Phase::Status);
    round_trip(Packet::Pong { payload: i64::MAX }, Direction::ClientBound, Phase::Status);
    round_trip(Packet::Pong { payload: 0 }, Direction::ClientBound, Phase::Status);
    round_trip(
        Packet::StatusResponse {
            json_text: String::from("{\"players\":{\"online\":3,\"max\":20}}"),
        },
        Direction::ClientBound,
        Phase::Status,
    );
    round_trip(
        Packet::StatusResponse { json_text: "\u{1F600}\u{e9}x".repeat(5000) },
        Direction::ClientBound,
        Phase::Status,
    );
}

#[test]
fn decode_refuses_a_tag_of_another_phase_or_side() {
    let ping = encode_body(&Packet::Ping { payload: 5 }, ProtocolVersion::V118R2).unwrap();
    assert_eq!(
        decode(&ping, Direction::ServerBound, Phase::Handshaking),
        Err(DecodeError::UnexpectedPacket)
    );
    assert_eq!(
        decode(&ping, Direction::ClientBound, Phase::Handshaking),
        Err(DecodeError::UnexpectedPacket)
    );
    assert_eq!(
        decode(&ping, Direction::ClientBound, Phase::Status),
        Ok(Packet::Pong { payload: 5 })
    );
    assert_eq!(
        decode(&[0x02], Direction::ClientBound, Phase::Status),
        Err(DecodeError::UnexpectedPacket)
    );
    assert_eq!(
        decode(&[0x02, 1, 2, 3], Direction::ServerBound, Phase::Status),
        Err(DecodeError::UnexpectedPacket)
    );
    assert_eq!(
        decode(&[0xFF, 0xFF, 0xFF, 0xFF, 0x0F], Direction::ClientBound, Phase::Status),
        Err(DecodeError::UnexpectedPacket)
    );
    assert_eq!(
        decode(&[0x00], Direction::ClientBound, Phase::Handshaking),
        Err(DecodeError::UnexpectedPacket)
    );
}

#[test]
fn decode_refuses_malformed_fields() {
    let c = Direction::ClientBound;
    let s = Direction::ServerBound;
    assert_eq!(decode(&[], c, Phase::Status), Err(DecodeError::Malformed));
    assert_eq!(decode(&[0x80], c, Phase::Status), Err(DecodeError::Malformed));
    assert_eq!(
        decode(&[0x80, 0x80, 0x80, 0x80, 0x80, 0x00], c, Phase::Status),
        Err(DecodeError::Malformed)
    );
    assert_eq!(decode(&[0x00], c, Phase::Status), Err(DecodeError::Malformed));
    assert_eq!(decode(&[0x00, 2, b'{'], c, Phase::Status), Err(DecodeError::Malformed));
    assert_eq!(decode(&[0x00, 2, 0xC3, 0x28], c, Phase::Status), Err(DecodeError::Malformed));
    assert_eq!(decode(&[0x01, 0, 0, 0, 0, 0, 0, 1], c, Phase::Status), Err(DecodeError::Malformed));
    assert_eq!(decode(&[0x01], s, Phase::Status), Err(DecodeError::Malformed));
    assert_eq!(decode(&[0x00], s, Phase::Handshaking), Err(DecodeError::Malformed));
    assert_eq!(
        decode(&[0x00, 0xF6, 0x05, 1, b'a', 0x63], s, Phase::Handshaking),
        Err(DecodeError::Malformed)
    );
    assert_eq!(
        decode(&[0x00, 0xF6, 0x05, 1, b'a', 0x63, 0xDD], s, Phase::Handshaking),
        Err(DecodeError::Malformed)
    );
}

#[test]
fn decode_refuses_a_handshake_for_another_phase() {
    assert_eq!(
        decode(&[0x00, 0xF6, 0x05, 1, b'a', 0x63, 0xDD, 0x02], Direction::ServerBound, Phase::Handshaking),
        Err(DecodeError::Malformed)
    );
    assert_eq!(
        decode(&[0x00, 0xF6, 0x05, 1, b'a', 0x63, 0xDD, 0x01], Direction::ServerBound, Phase::Handshaking),
        Ok(Packet::Handshake { server_address: String::from("a"), server_port: 25565 })
    );
}

#[test]
fn decode_refuses_trailing_bytes() {
    let c = Direction::ClientBound;
    let s = Direction::ServerBound;
    assert_eq!(decode(&[0x00, 0x00], s, Phase::Status), Err(DecodeError::TrailingBytes));
    assert_eq!(
        decode(&[0x01, 0, 0, 0, 0, 0, 0, 0, 1, 9], c, Phase::Status),
        Err(DecodeError::TrailingBytes)
    );
    assert_eq!(
        decode(&[0x00, 2, b'{', b'}', 0], c, Phase::Status),
        Err(DecodeError::TrailingBytes)
    );
    assert_eq!(
        decode(&[0x00, 0xF6, 0x05, 1, b'a', 0x63, 0xDD, 0x01, 0x00], s, Phase::Handshaking),
        Err(DecodeError::TrailingBytes)
    );
}

#[test]
fn decode_reads_a_handshake_of_any_revision() {
    assert_eq!(
        decode(&[0x00, 0x2F, 1, b'a', 0, 80, 0x01], Direction::ServerBound, Phase::Handshaking),
        Ok(Packet::Handshake { server_address: String::from("a"), server_port: 80 })
    );
}

#[test]
fn text_reader_refuses_bytes_that_are_no_utf8() {
    assert_eq!(read_text(&[2, 0xC0, 0x80]), None);
    assert_eq!(read_text(&[3, 0xED, 0xA0, 0x80]), None);
    assert_eq!(read_text(&[4, 0xF4, 0x90, 0x80, 0x80]), None);
    assert_eq!(read_text(&[1, 0x80]), None);
    assert_eq!(read_text(&[1, 0xFF]), None);
    assert_eq!(read_text(&[3, 0xE2, 0x82]), None);
    assert_eq!(
        read_text(&[4, 0xF4, 0x8F, 0xBF, 0xBF]),
        Some((String::from("\u{10FFFF}"), 5))
    );
    assert_eq!(
        read_text(&[3, 0xED, 0x9F, 0xBF]),
        Some((String::from("\u{D7FF}"), 4))
    );
}

#[test]
fn text_reader_leaves_what_follows() {
    assert_eq!(read_text(&[0]), Some((String::new(), 1)));
    assert_eq!(read_text(&[0, 1, 2]), Some((String::new(), 1)));
    assert_eq!(read_text(&[0x81, 0x00, b'a', b'b']), Some((String::from("a"), 3)));
}
