//! Payloads of the Discord voice gateway: the Identify that opens a voice
//! session, the Ready event that answers it and the Heartbeat that keeps it
//! alive.

use crate::text::{decimal, u64_to_decimal};
use vstd::prelude::*;

verus! {

/// Opcode of Identify.
pub const IDENTIFY_OP: u8 = 0;

/// Opcode of Ready.
pub const READY_OP: u8 = 2;

/// Opcode of Heartbeat.
pub const HEARTBEAT_OP: u8 = 3;

/// Identify (opcode 0).
pub struct Identify {
    pub op: u8,
    pub d: IdentifyData,
}

/// The identity of the bot's voice session; the snowflakes are decimal text.
pub struct IdentifyData {
    pub server_id: String,
    pub user_id: String,
    pub session_id: String,
    pub token: String,
}

/// Ready (opcode 2), as the server sends it.
pub struct VoiceReady {
    pub op: u8,
    pub d: VoiceReadyData,
}

/// The voice connection that the server set up.
pub struct VoiceReadyData {
    pub ssrc: u32,
    pub ip: String,
    pub port: u16,
    pub modes: Vec<String>,
    pub heartbeat_interval: u64,
}

/// Heartbeat (opcode 3).
pub struct Heartbeat {
    pub op: u8,
    pub d: HeartbeatData,
}

/// A heartbeat's timestamp (milliseconds since the Unix epoch) and the
/// sequence number it acknowledges.
pub struct HeartbeatData {
    pub t: u64,
    pub seq_ack: u64,
}

/// Why the voice handshake failed.
#[derive(Debug, PartialEq, Eq, Structural)]
pub enum VoiceError {
    /// The first message from the server was not a Ready event.
    NotReady,
}

impl VoiceError {
    /// The error's text.
    pub fn message(&self) -> (text: &'static str)
        ensures
            text@ == "Expected voice ready event"@,
    {
        "Expected voice ready event"
    }
}

impl Identify {
    /// The Identify for the voice session `session_id` of the bot `user_id`
    /// in the guild `guild_id`.
    pub fn new(guild_id: u64, user_id: u64, session_id: &str, token: &str) -> (identify: Self)
        ensures
            identify.op == IDENTIFY_OP,
            identify.d.server_id@ == decimal(guild_id as nat),
            identify.d.user_id@ == decimal(user_id as nat),
            identify.d.session_id@ == session_id@,
            identify.d.token@ == token@,
    {
        Identify {
            op: IDENTIFY_OP,
            d: IdentifyData {
                server_id: u64_to_decimal(guild_id),
                user_id: u64_to_decimal(user_id),
                session_id: String::from_str(session_id),
                token: String::from_str(token),
            },
        }
    }
}

impl VoiceReady {
    /// The heartbeat interval that a Ready event sets; any other event is
    /// refused.
    pub fn heartbeat_interval(&self) -> (interval: Result<u64, VoiceError>)
        ensures
            self.op == READY_OP ==> interval == Ok::<u64, VoiceError>(self.d.heartbeat_interval),
            self.op != READY_OP ==> interval == Err::<u64, VoiceError>(VoiceError::NotReady),
    {
        if self.op != READY_OP {
            return Err(VoiceError::NotReady);
        }
        Ok(self.d.heartbeat_interval)
    }
}

impl Heartbeat {
    /// The heartbeat sent at `timestamp_millis` that acknowledges `sequence`.
    pub fn new(timestamp_millis: u64, sequence: u64) -> (heartbeat: Self)
        ensures
            heartbeat.op == HEARTBEAT_OP,
            heartbeat.d.t == timestamp_millis,
            heartbeat.d.seq_ack == sequence,
    {
        Heartbeat { op: HEARTBEAT_OP, d: HeartbeatData { t: timestamp_millis, seq_ack: sequence } }
    }
}

} // verus!
