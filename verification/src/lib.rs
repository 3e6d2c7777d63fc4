//! Verified core of the Blinky Discord voice bot: WebSocket framing and
//! handshake, the Gemini Live message model, the Discord voice gateway
//! payloads, the `/join` command and the gateway event state machine.

pub mod bot;
pub mod codec;
pub mod commands;
pub mod frame;
pub mod gemini;
pub mod text;
pub mod voice;
pub mod websocket;
