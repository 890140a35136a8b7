use tracker_discord_bot::packet::{encode, EncodeError, Packet, ProtocolVersion};
use tracker_discord_bot::session::{
    elapsed_between, stamp_at, Action, Event, FailureCause, Session, SessionState, StatusReply,
    MAX_STRAY_PONGS,
};
use tracker_discord_bot::stats::{
    query_minecraft_status, sample_of, MinecraftStats, QueryError, StatusBreakdown,
    StatusResponseFull,
};

const V: ProtocolVersion = ProtocolVersion::V118R2;
const JSON: &str = "{\"players\":{\"online\":3,\"max\":20}}";

fn wire(packet: Packet) -> Vec<u8> {
    encode(&packet, V).unwrap()
}

fn fresh(now: u128, budget: u128) -> Session {
    Session::new(String::from("mh-prd.minehut.com"), 25565, V, now, budget).unwrap()
}

fn awaiting_status(now: u128, budget: u128) -> Session {
    let mut s = fresh(now, budget);
    assert_eq!(s.state(), SessionState::Init);
    let handshake = wire(Packet::Handshake {
        server_address: String::from("mh-prd.minehut.com"),
        server_port: 25565,
    });
    assert_eq!(s.step(Event::Connected, now), Action::Send(handshake));
    assert_eq!(s.state(), SessionState::HandshakeSent);
    assert_eq!(s.step(Event::Sent, now), Action::Send(vec![1, 0]));
    assert_eq!(s.state(), SessionState::StatusRequested);
    assert_eq!(s.step(Event::Sent, now), Action::Receive);
    assert_eq!(s.state(), SessionState::AwaitingStatus);
    s
}

fn awaiting_pong(now: u128, budget: u128, pinged_at: u128) -> Session {
    let mut s = awaiting_status(now, budget);
    let response = wire(Packet::StatusResponse { json_text: String::from(JSON) });
    let ping = wire(Packet::Ping { payload: pinged_at as i64 });
    assert_eq!(s.step(Event::Received(response), pinged_at), Action::Send(ping));
    assert_eq!(s.state(), SessionState::PingSent);
    assert_eq!(s.step(Event::Sent, pinged_at), Action::Receive);
    assert_eq!(s.state(), SessionState::AwaitingPong);
    s
}

fn parsed() -> Option<StatusResponseFull> {
    Some(StatusResponseFull { breakdown: StatusBreakdown { players: 3, servers: 20 } })
}

#[test]
fn status_then_matching_pong_completes_the_session() {
    let mut s = awaiting_pong(1_000, 5_000, 1_010);
    assert_eq!(s.reply(), None);
    let pong = wire(Packet::Pong { payload: 1_010 });
    assert_eq!(s.step(Event::Received(pong), 1_052), Action::Finish);
    assert_eq!(s.state(), SessionState::Done);
    assert!(s.is_finished());
    assert_eq!(s.failure(), None);
    assert_eq!(
        s.reply(),
        Some(StatusReply { json_text: String::from(JSON), latency: 42 })
    );
}

#[test]
fn status_and_pong_in_one_piece() {
    let mut s = awaiting_status(1_000, 5_000);
    let mut both = wire(Packet::StatusResponse { json_text: String::from(JSON) });
    both.extend(wire(Packet::Pong { payload: 1_010 }));
    let ping = wire(Packet::Ping { payload: 1_010 });
    assert_eq!(s.step(Event::Received(both), 1_010), Action::Send(ping));
    assert_eq!(s.state(), SessionState::PingSent);
    assert_eq!(s.step(Event::Sent, 1_015), Action::Finish);
    assert_eq!(s.state(), SessionState::Done);
    assert_eq!(s.reply().unwrap().latency, 5);
}

#[test]
fn frames_may_arrive_byte_by_byte() {
    let mut s = awaiting_status(0, 5_000);
    let response = wire(Packet::StatusResponse { json_text: String::from(JSON) });
    let (last, head) = response.split_last().unwrap();
    for b in head {
        assert_eq!(s.step(Event::Received(vec![*b]), 10), Action::Receive);
        assert_eq!(s.state(), SessionState::AwaitingStatus);
    }
    assert_eq!(
        s.step(Event::Received(vec![*last]), 20),
        Action::Send(wire(Packet::Ping { payload: 20 }))
    );
    assert_eq!(s.step(Event::Sent, 21), Action::Receive);
    let pong = wire(Packet::Pong { payload: 20 });
    let (last, head) = pong.split_last().unwrap();
    for b in head {
        assert_eq!(s.step(Event::Received(vec![*b]), 30), Action::Receive);
    }
    assert_eq!(s.step(Event::Received(vec![*last]), 33), Action::Finish);
    assert_eq!(s.reply().unwrap().latency, 13);
}

#[test]
fn a_session_without_status_times_out() {
    let mut s = awaiting_status(1_000, 5_000);
    assert_eq!(s.time_left(1_000), 5_000);
    assert_eq!(s.time_left(5_999), 1);
    assert_eq!(s.time_left(6_000), 0);
    assert_eq!(s.time_left(999), 5_000);
    assert_eq!(s.step(Event::Received(vec![]), 5_999), Action::Receive);
    assert_eq!(s.step(Event::DeadlineExceeded, 5_999), Action::Abort);
    assert_eq!(s.state(), SessionState::Failed(FailureCause::TimeoutError));
    assert_eq!(s.failure(), Some(FailureCause::TimeoutError));
    assert_eq!(s.reply(), None);
    let outcome = query_minecraft_status(&s, parsed());
    assert_eq!(outcome, Err(QueryError::Session(FailureCause::TimeoutError)));
    assert_eq!(sample_of(outcome), None);
}

#[test]
fn an_event_after_the_time_allowed_fails_for_the_time() {
    let mut s = awaiting_status(1_000, 5_000);
    let response = wire(Packet::StatusResponse { json_text: String::from(JSON) });
    assert_eq!(s.step(Event::Received(response), 6_000), Action::Abort);
    assert_eq!(s.state(), SessionState::Failed(FailureCause::TimeoutError));

    let mut s = fresh(10, 0);
    assert_eq!(s.step(Event::Connected, 10), Action::Abort);
    assert_eq!(s.state(), SessionState::Failed(FailureCause::TimeoutError));
}

#[test]
fn connect_failure_and_transport_faults() {
    let mut s = fresh(0, 100);
    assert_eq!(s.step(Event::ConnectFailed, 1), Action::Abort);
    assert_eq!(s.state(), SessionState::Failed(FailureCause::ConnectError));

    let mut s = awaiting_status(0, 100);
    assert_eq!(s.step(Event::IoFailed, 1), Action::Abort);
    assert_eq!(s.state(), SessionState::Failed(FailureCause::IoError));

    let mut s = awaiting_status(0, 100);
    assert_eq!(s.step(Event::ConnectFailed, 1), Action::Abort);
    assert_eq!(s.state(), SessionState::Failed(FailureCause::IoError));
}

#[test]
fn events_out_of_turn_are_transport_faults() {
    let mut s = fresh(0, 100);
    assert_eq!(s.step(Event::Sent, 1), Action::Abort);
    assert_eq!(s.state(), SessionState::Failed(FailureCause::IoError));

    let mut s = fresh(0, 100);
    assert_eq!(s.step(Event::Received(vec![1, 0]), 1), Action::Abort);
    assert_eq!(s.state(), SessionState::Failed(FailureCause::IoError));

    let mut s = awaiting_status(0, 100);
    assert_eq!(s.step(Event::Connected, 1), Action::Abort);
    assert_eq!(s.state(), SessionState::Failed(FailureCause::IoError));

    let mut s = awaiting_status(0, 100);
    assert_eq!(s.step(Event::Sent, 1), Action::Abort);
    assert_eq!(s.state(), SessionState::Failed(FailureCause::IoError));
}

#[test]
fn anything_but_the_status_fails_a_session_that_waits_for_it() {
    let mut s = awaiting_status(0, 100);
    assert_eq!(s.step(Event::Received(wire(Packet::Pong { payload: 1 })), 1), Action::Abort);
    assert_eq!(s.state(), SessionState::Failed(FailureCause::DecodeError));

    let mut s = awaiting_status(0, 100);
    assert_eq!(s.step(Event::Received(vec![1, 0x05]), 1), Action::Abort);
    assert_eq!(s.state(), SessionState::Failed(FailureCause::DecodeError));

    let mut s = awaiting_status(0, 100);
    assert_eq!(
        s.step(Event::Received(vec![0x80, 0x80, 0x80, 0x80, 0x80]), 1),
        Action::Abort
    );
    assert_eq!(s.state(), SessionState::Failed(FailureCause::DecodeError));

    let mut s = awaiting_status(0, 100);
    assert_eq!(s.step(Event::Received(vec![3, 0x00, 1, 0xFF]), 1), Action::Abort);
    assert_eq!(s.state(), SessionState::Failed(FailureCause::DecodeError));
}

#[test]
fn stray_pongs_pass_up_to_the_limit() {
    assert_eq!(MAX_STRAY_PONGS, 8);
    let mut s = awaiting_pong(0, 10_000, 500);
    for i in 0..8 {
        let stray = wire(Packet::Pong { payload: 400 + i });
        assert_eq!(s.step(Event::Received(stray), 600), Action::Receive);
        assert_eq!(s.state(), SessionState::AwaitingPong);
    }
    assert_eq!(s.step(Event::Received(wire(Packet::Pong { payload: 500 })), 650), Action::Finish);
    assert_eq!(s.reply().unwrap().latency, 150);
}

#[test]
fn one_stray_pong_too_many_fails_the_session() {
    let mut s = awaiting_pong(0, 10_000, 500);
    let mut strays = Vec::new();
    for i in 0..9 {
        strays.extend(wire(Packet::Pong { payload: 400 + i }));
    }
    strays.extend(wire(Packet::Pong { payload: 500 }));
    assert_eq!(s.step(Event::Received(strays), 600), Action::Abort);
    assert_eq!(s.state(), SessionState::Failed(FailureCause::StrayOverflow));
    assert_eq!(s.reply(), None);
}

#[test]
fn other_packets_are_passed_over_while_waiting_for_the_pong() {
    let mut s = awaiting_pong(0, 10_000, 500);
    let mut bytes = Vec::new();
    for _ in 0..20 {
        bytes.extend(wire(Packet::StatusResponse { json_text: String::from("{}") }));
    }
    assert_eq!(s.step(Event::Received(bytes), 600), Action::Receive);
    assert_eq!(s.state(), SessionState::AwaitingPong);
    assert_eq!(s.step(Event::Received(wire(Packet::Pong { payload: 500 })), 700), Action::Finish);
    assert_eq!(
        s.reply(),
        Some(StatusReply { json_text: String::from(JSON), latency: 200 })
    );
}

#[test]
fn a_bad_frame_fails_a_session_that_waits_for_the_pong() {
    let mut s = awaiting_pong(0, 10_000, 500);
    assert_eq!(s.step(Event::Received(vec![1, 0x07]), 600), Action::Abort);
    assert_eq!(s.state(), SessionState::Failed(FailureCause::DecodeError));

    let mut s = awaiting_pong(0, 10_000, 500);
    assert_eq!(
        s.step(Event::Received(vec![0xFF, 0xFF, 0xFF, 0xFF, 0x0F]), 600),
        Action::Abort
    );
    assert_eq!(s.state(), SessionState::Failed(FailureCause::DecodeError));
}

#[test]
fn an_ended_session_stays_as_it_is() {
    let mut s = awaiting_pong(0, 10_000, 500);
    assert_eq!(s.step(Event::Received(wire(Packet::Pong { payload: 500 })), 510), Action::Finish);
    for event in [Event::Connected, Event::IoFailed, Event::DeadlineExceeded, Event::Sent] {
        assert_eq!(s.step(event, 99_999), Action::Finish);
        assert_eq!(s.state(), SessionState::Done);
        assert_eq!(s.reply().unwrap().latency, 10);
    }
    let mut s = fresh(0, 100);
    assert_eq!(s.step(Event::ConnectFailed, 1), Action::Abort);
    for event in [Event::Connected, Event::IoFailed, Event::DeadlineExceeded] {
        assert_eq!(s.step(event, 2), Action::Abort);
        assert_eq!(s.state(), SessionState::Failed(FailureCause::ConnectError));
    }
}

#[test]
fn a_clock_that_went_back_gives_no_latency() {
    let mut s = awaiting_pong(0, 10_000, 500);
    assert_eq!(s.step(Event::Received(wire(Packet::Pong { payload: 500 })), 400), Action::Finish);
    assert_eq!(s.reply().unwrap().latency, 0);
    assert_eq!(elapsed_between(500, 400), 0);
    assert_eq!(elapsed_between(400, 500), 100);
}

#[test]
fn stamp_is_the_time_below_two_to_the_63() {
    assert_eq!(stamp_at(0), 0);
    assert_eq!(stamp_at(1_666_000_000_123), 1_666_000_000_123);
    assert_eq!(stamp_at(i64::MAX as u128), i64::MAX);
    assert_eq!(stamp_at(i64::MAX as u128 + 1), 0);
    assert_eq!(stamp_at(u128::MAX), i64::MAX);
}

#[test]
fn session_refuses_an_address_that_is_too_long() {
    let r = Session::new("x".repeat(32768), 25565, V, 0, 100);
    assert_eq!(r.err(), Some(EncodeError::TextTooLong));
    assert!(Session::new("x".repeat(32767), 25565, V, 0, 100).is_ok());
}

#[test]
fn outcome_of_a_query() {
    let mut s = awaiting_pong(0, 10_000, 500);
    assert_eq!(query_minecraft_status(&s, parsed()), Err(QueryError::Unfinished));
    assert_eq!(s.step(Event::Received(wire(Packet::Pong { payload: 500 })), 530), Action::Finish);
    let stats = MinecraftStats { players: 3, servers: 20, latency: 30 };
    assert_eq!(query_minecraft_status(&s, parsed()), Ok(stats));
    assert_eq!(sample_of(Ok(stats)), Some(stats));
    assert_eq!(query_minecraft_status(&s, None), Err(QueryError::BadStatus));
    assert_eq!(sample_of(Err(QueryError::BadStatus)), None);
    assert_eq!(sample_of(Err(QueryError::Unfinished)), None);
    assert_eq!(sample_of(Err(QueryError::Session(FailureCause::IoError))), None);
}
