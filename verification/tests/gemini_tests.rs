use blinky::gemini::{
    realtime_audio_message, setup_message, Content, GeminiAudioStream, GenerativeContentBlob,
    Modality, OutgoingMessage, Part, Role,
};

fn blob(data: &str) -> Part {
    Part::InlineData(GenerativeContentBlob {
        data: data.to_string(),
        mime_type: "audio/pcm".to_string(),
    })
}

#[test]
fn user_content() {
    let content = Content::new("hello");
    assert!(matches!(content.role, Some(Role::User)));
    assert_eq!(content.parts.len(), 1);
    assert!(matches!(&content.parts[0], Part::Text(t) if t == "hello"));
    assert!(!content.is_empty());
}

#[test]
fn system_content() {
    let content = Content::new_system("be brief");
    assert!(content.role.is_none());
    assert!(matches!(&content.parts[0], Part::Text(t) if t == "be brief"));
}

#[test]
fn emptiness() {
    assert!(Content::new("").is_empty());
    assert!(Content::default().is_empty());
    assert!(Part::Text(String::new()).is_empty());
    assert!(!Part::Text("x".to_string()).is_empty());
    assert!(blob("").is_empty());
    assert!(!blob("AQID").is_empty());
    let mixed = Content { role: None, parts: vec![Part::Text(String::new()), blob("A")] };
    assert!(!mixed.is_empty());
    let all_empty = Content { role: None, parts: vec![Part::Text(String::new()), blob("")] };
    assert!(all_empty.is_empty());
}

#[test]
fn audio_stream_gathers_inline_data() {
    let content = Content {
        role: Some(Role::Model),
        parts: vec![blob("AB"), Part::Text("ignored".to_string()), blob("CD")],
    };
    let stream = GeminiAudioStream::new(content);
    assert_eq!(stream.data, b"ABCD".to_vec());
    assert!(GeminiAudioStream::new(Content::new("only text")).data.is_empty());
}

#[test]
fn setup_message_contents() {
    match setup_message() {
        OutgoingMessage::Setup { model, system_instruction, generation_config } => {
            assert_eq!(model, "models/gemini-2.0-flash-exp");
            assert!(system_instruction.role.is_none());
            assert!(matches!(&system_instruction.parts[0], Part::Text(t) if t == "You are a discord bot named Blinky."));
            let config = generation_config.expect("generation config");
            assert_eq!(config.response_modalities.len(), 1);
            assert!(matches!(config.response_modalities[0], Modality::Audio));
            let voice = config
                .speech_config
                .and_then(|s| s.voice_config)
                .and_then(|v| v.prebuilt_voice_config)
                .expect("voice");
            assert_eq!(voice.voice_name, "Aoede");
        }
        _ => panic!("expected a setup message"),
    }
}

#[test]
fn audio_turn_is_base64() {
    match realtime_audio_message(&[1, 2, 3, 4], "audio/pcm;rate=16000") {
        OutgoingMessage::ClientContent { turns, turn_complete } => {
            assert!(turn_complete);
            assert_eq!(turns.len(), 1);
            assert!(matches!(turns[0].role, Some(Role::User)));
            assert_eq!(turns[0].parts.len(), 1);
            match &turns[0].parts[0] {
                Part::InlineData(blob) => {
                    assert_eq!(blob.data, "AQIDBA==");
                    assert_eq!(blob.mime_type, "audio/pcm;rate=16000");
                }
                _ => panic!("expected inline data"),
            }
        }
        _ => panic!("expected client content"),
    }
}
