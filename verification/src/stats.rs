//! What one poll of a server yields, and how the outcome of a query becomes a
//! sample: the figures on success, nothing on failure.

use crate::packet::ProtocolVersion;
use crate::session::{EventView, FailureCause, Session, SessionState, SessionView};
use vstd::prelude::*;

verus! {

/// The server that the status monitor asks.
pub const TARGET_IP: &'static str = "mh-prd.minehut.com";

/// The port at which it is asked.
pub const TARGET_PORT: u16 = 25565;

/// The revision that the status monitor stamps its handshake with.
pub const NATIVE_PROTOCOL_VERSION: ProtocolVersion = ProtocolVersion::V118R2;

/// The milliseconds between the end of one poll and the start of the next.
pub const POLL_INTERVAL_MILLIS: u64 = 500;

/// The milliseconds that one poll may take, from connect to pong.
pub const QUERY_BUDGET_MILLIS: u128 = 10_000;

/// The player figures of a status response: how many are online, and how
/// many the server takes.
#[derive(Debug, Clone, Copy, PartialEq, Eq, Structural)]
pub struct StatusBreakdown {
    pub players: usize,
    pub servers: usize,
}

/// The part of a status response that is read.
#[derive(Debug, Clone, Copy, PartialEq, Eq, Structural)]
pub struct StatusResponseFull {
    pub breakdown: StatusBreakdown,
}

/// The figures of one successful poll.
#[derive(Debug, Clone, Copy, PartialEq, Eq, Structural)]
pub struct MinecraftStats {
    pub players: usize,
    pub servers: usize,
    /// Milliseconds between ping and pong.
    pub latency: u128,
}

/// The figures that the network's web interface reports.
#[derive(Debug, Clone, Copy, PartialEq, Eq, Structural)]
pub struct NetworkSimpleStatsResponse {
    pub player_count: usize,
    pub server_count: usize,
    pub server_max: usize,
    pub ram_count: usize,
    pub ram_max: usize,
}

/// Why a query gave no figures.
#[derive(Debug, Clone, Copy, PartialEq, Eq, Structural)]
pub enum QueryError {
    /// The session failed.
    Session(FailureCause),
    /// The session has not ended.
    Unfinished,
    /// The session is complete, but its status text could not be read.
    BadStatus,
}

/// The outcome of a query: the figures of a complete session whose status
/// text was read, with the session's latency; else the reason why there are
/// none. A session that is complete has a reply, so that `BadStatus` says
/// that the text was not read.
pub open spec fn query_outcome(s: SessionView, parsed: Option<StatusResponseFull>) -> Result<
    MinecraftStats,
    QueryError,
> {
    match s.state {
        SessionState::Failed(cause) => Err(QueryError::Session(cause)),
        SessionState::Done => match (parsed, s.reply()) {
            (Some(full), Some(reply)) => Ok(
                MinecraftStats {
                    players: full.breakdown.players,
                    servers: full.breakdown.servers,
                    latency: reply.1,
                },
            ),
            _ => Err(QueryError::BadStatus),
        },
        _ => Err(QueryError::Unfinished),
    }
}

/// The sample that an outcome becomes: the figures, or nothing. No failure
/// goes further than this.
pub open spec fn sample(outcome: Result<MinecraftStats, QueryError>) -> Option<MinecraftStats> {
    match outcome {
        Ok(stats) => Some(stats),
        Err(_) => None,
    }
}

/// Puts together what a session found and what its status text says.
/// `parsed` is the status text read as JSON, or nothing where it could not
/// be read.
pub fn query_minecraft_status(session: &Session, parsed: Option<StatusResponseFull>) -> (r: Result<
    MinecraftStats,
    QueryError,
>)
    ensures
        r == query_outcome(session@, parsed),
{
    match session.state() {
        SessionState::Failed(cause) => Err(QueryError::Session(cause)),
        SessionState::Done => {
            match (parsed, session.reply()) {
                (Some(full), Some(reply)) => Ok(
                    MinecraftStats {
                        players: full.breakdown.players,
                        servers: full.breakdown.servers,
                        latency: reply.latency,
                    },
                ),
                _ => Err(QueryError::BadStatus),
            }
        },
        _ => Err(QueryError::Unfinished),
    }
}

/// The sample that an outcome becomes.
pub fn sample_of(outcome: Result<MinecraftStats, QueryError>) -> (r: Option<MinecraftStats>)
    ensures
        r == sample(outcome),
{
    match outcome {
        Ok(stats) => Some(stats),
        Err(_) => None,
    }
}

/// A query whose time ran out yields no sample: the session fails for the
/// time, and a failed session becomes nothing, whatever its status text
/// might have said.
pub proof fn lemma_timeout_gives_no_sample(
    s: SessionView,
    event: EventView,
    now: u128,
    parsed: Option<StatusResponseFull>,
)
    requires
        !s.terminal(),
        event is DeadlineExceeded || s.overdue(now),
    ensures
        s.step(event, now).0.state == SessionState::Failed(FailureCause::TimeoutError),
        sample(query_outcome(s.step(event, now).0, parsed)) is None,
{
}

/// Only a complete session yields a sample, and a failed poll yields none:
/// no figure of a sample stands for a failure.
pub proof fn lemma_sample_needs_done(s: SessionView, parsed: Option<StatusResponseFull>)
    ensures
        sample(query_outcome(s, parsed)) is Some ==> s.state is Done && parsed is Some,
        s.state is Failed ==> sample(query_outcome(s, parsed)) is None,
{
}

/// A complete session whose status text was read yields the figures of the
/// text with the session's latency.
pub proof fn lemma_done_gives_sample(s: SessionView, full: StatusResponseFull)
    requires
        s.wf(),
        s.state is Done,
    ensures
        sample(query_outcome(s, Some(full))) == Some(
            MinecraftStats {
                players: full.breakdown.players,
                servers: full.breakdown.servers,
                latency: s.latency->Some_0,
            },
        ),
{
}

} // verus!
