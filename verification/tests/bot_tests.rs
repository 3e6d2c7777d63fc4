use blinky::bot::{route_command, BotAction, Command, GatewayEvent, VoiceSession};
use blinky::commands::{JoinCommand, JoinOutcome};
use blinky::text::{contains_bytes, str_equal, u64_to_decimal};
use blinky::voice::{Heartbeat, Identify, VoiceError, VoiceReady, VoiceReadyData};

#[test]
fn join_is_routed() {
    assert_eq!(route_command("join"), Ok(Command::Join));
}

#[test]
fn unknown_command_is_named() {
    assert_eq!(route_command("leave"), Err("unknown command: leave".to_string()));
    assert_eq!(route_command("joi"), Err("unknown command: joi".to_string()));
    assert_eq!(route_command(""), Err("unknown command: ".to_string()));
}

#[test]
fn voice_server_after_state_connects() {
    let mut session = VoiceSession::new();
    let action = session.handle_event(GatewayEvent::VoiceStateUpdate {
        session_id: "sess-1".to_string(),
    });
    assert!(matches!(action, BotAction::Nothing));
    assert_eq!(session.session_id.as_deref(), Some("sess-1"));
    let action = session.handle_event(GatewayEvent::VoiceServerUpdate {
        guild_id: 301526452770439168,
        token: "tok".to_string(),
        endpoint: Some("voice.example:443".to_string()),
    });
    match action {
        BotAction::ConnectVoice { endpoint, session_id, token, guild_id } => {
            assert_eq!(endpoint, "voice.example:443");
            assert_eq!(session_id, "sess-1");
            assert_eq!(token, "tok");
            assert_eq!(guild_id, 301526452770439168);
        }
        _ => panic!("expected a voice connection"),
    }
    assert_eq!(session.token.as_deref(), Some("tok"));
}

#[test]
fn latest_session_id_wins() {
    let mut session = VoiceSession::new();
    session.handle_event(GatewayEvent::VoiceStateUpdate { session_id: "a".to_string() });
    session.handle_event(GatewayEvent::VoiceStateUpdate { session_id: "b".to_string() });
    assert_eq!(session.session_id.as_deref(), Some("b"));
}

#[test]
fn interactions_are_dispatched() {
    let mut session = VoiceSession::new();
    assert!(matches!(
        session.handle_event(GatewayEvent::Interaction { command: None }),
        BotAction::IgnoreInteraction
    ));
    assert!(matches!(
        session.handle_event(GatewayEvent::Interaction { command: Some("join".to_string()) }),
        BotAction::RunCommand(Command::Join)
    ));
    match session.handle_event(GatewayEvent::Interaction { command: Some("ping".to_string()) }) {
        BotAction::RejectCommand(message) => assert_eq!(message, "unknown command: ping"),
        _ => panic!("expected a rejection"),
    }
    assert!(matches!(session.handle_event(GatewayEvent::Other), BotAction::Nothing));
    assert!(session.session_id.is_none());
    assert!(session.token.is_none());
}

#[test]
fn channel_id_parsing() {
    let command = |s: &str| JoinCommand { channel_id: s.to_string() };
    assert_eq!(command("123456789012345678").channel(), Some(123456789012345678));
    assert_eq!(command("+42").channel(), Some(42));
    assert_eq!(command("007").channel(), Some(7));
    assert_eq!(command("18446744073709551615").channel(), Some(u64::MAX));
    assert_eq!(command("0").channel(), None);
    assert_eq!(command("").channel(), None);
    assert_eq!(command("+").channel(), None);
    assert_eq!(command("-5").channel(), None);
    assert_eq!(command(" 5").channel(), None);
    assert_eq!(command("12a").channel(), None);
    assert_eq!(command("18446744073709551616").channel(), None);
}

#[test]
fn join_outcome_and_reply() {
    let joined = JoinCommand::outcome(true, true);
    assert_eq!(joined, JoinOutcome::Joined);
    assert!(joined.joins_channel());
    assert_eq!(joined.reply(), "Joined voice channel");
    for (guild, channel) in [(true, false), (false, true), (false, false)] {
        let failed = JoinCommand::outcome(guild, channel);
        assert_eq!(failed, JoinOutcome::Failed);
        assert!(!failed.joins_channel());
        assert_eq!(failed.reply(), "Failed to join voice channel");
    }
}

#[test]
fn identify_payload() {
    let identify = Identify::new(301526452770439168, 42, "session", "token");
    assert_eq!(identify.op, 0);
    assert_eq!(identify.d.server_id, "301526452770439168");
    assert_eq!(identify.d.user_id, "42");
    assert_eq!(identify.d.session_id, "session");
    assert_eq!(identify.d.token, "token");
}

fn ready(op: u8) -> VoiceReady {
    VoiceReady {
        op,
        d: VoiceReadyData {
            ssrc: 1,
            ip: "127.0.0.1".to_string(),
            port: 50000,
            modes: vec!["xsalsa20_poly1305".to_string()],
            heartbeat_interval: 41250,
        },
    }
}

#[test]
fn ready_sets_heartbeat_interval() {
    assert_eq!(ready(2).heartbeat_interval(), Ok(41250));
    assert_eq!(ready(8).heartbeat_interval(), Err(VoiceError::NotReady));
    assert_eq!(VoiceError::NotReady.message(), "Expected voice ready event");
}

#[test]
fn heartbeat_payload() {
    let heartbeat = Heartbeat::new(1_700_000_000_000, 17);
    assert_eq!(heartbeat.op, 3);
    assert_eq!(heartbeat.d.t, 1_700_000_000_000);
    assert_eq!(heartbeat.d.seq_ack, 17);
}

#[test]
fn decimal_text() {
    assert_eq!(u64_to_decimal(0), "0");
    assert_eq!(u64_to_decimal(9), "9");
    assert_eq!(u64_to_decimal(10), "10");
    assert_eq!(u64_to_decimal(1234567890), "1234567890");
    assert_eq!(u64_to_decimal(u64::MAX), u64::MAX.to_string());
}

#[test]
fn byte_search_and_equality() {
    assert!(contains_bytes(b"hello world", b"o w"));
    assert!(contains_bytes(b"hello", b""));
    assert!(contains_bytes(b"abc", b"abc"));
    assert!(!contains_bytes(b"abc", b"abcd"));
    assert!(!contains_bytes(b"aab", b"abb"));
    assert!(str_equal("join", "join"));
    assert!(!str_equal("join", "Join"));
    assert!(!str_equal("é", "e"));
}
