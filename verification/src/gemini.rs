//! The message model of the Gemini Live API as the bot uses it, the two
//! messages it sends (session setup and a turn of recorded audio) and the
//! audio that a model turn carries back.

use crate::codec::{base64_encode, base64_len, base64_standard};
use vstd::prelude::*;
use vstd::string::StringSliceAdditionalSpecFns;
use vstd::utf8::encode_utf8;

verus! {

/// Who produced a piece of content.
#[derive(Debug)]
pub enum Role {
    Model,
    User,
}

/// One part of a content: text, or binary data given inline as Base64.
#[derive(Debug)]
pub enum Part {
    Text(String),
    InlineData(GenerativeContentBlob),
}

/// Base64 data with its MIME type.
#[derive(Debug)]
pub struct GenerativeContentBlob {
    pub data: String,
    pub mime_type: String,
}

/// A turn of conversation: an optional role and its parts.
#[derive(Debug)]
pub struct Content {
    pub role: Option<Role>,
    pub parts: Vec<Part>,
}

/// Session setup options (none are used yet).
#[derive(Debug)]
pub struct SetupConfig {}

/// How the model should answer.
#[derive(Debug)]
pub struct LiveGenerationConfig {
    pub response_modalities: Vec<Modality>,
    pub speech_config: Option<SpeechConfig>,
}

/// A kind of answer the model may give.
#[derive(Debug)]
pub enum Modality {
    Text,
    Audio,
    Image,
}

/// Speech output options.
#[derive(Debug)]
pub struct SpeechConfig {
    pub voice_config: Option<VoiceConfig>,
}

/// Which voice speaks.
#[derive(Debug)]
pub struct VoiceConfig {
    pub prebuilt_voice_config: Option<PrebuiltVoiceConfig>,
}

/// A voice by name.
#[derive(Debug)]
pub struct PrebuiltVoiceConfig {
    pub voice_name: String,
}

/// What the client sends to the Live API.
#[derive(Debug)]
pub enum OutgoingMessage {
    RealtimeInput { media_chunks: Vec<GenerativeContentBlob> },
    Setup {
        model: String,
        system_instruction: Content,
        generation_config: Option<LiveGenerationConfig>,
    },
    ClientContent { turns: Vec<Content>, turn_complete: bool },
}

/// A server message that carries content.
#[derive(Debug)]
pub struct ServerContentMessage {
    pub server_content: ServerContent,
}

/// What the server sends back during a turn.
#[derive(Debug)]
pub enum ServerContent {
    ModelTurn(Content),
    TurnComplete(bool),
    Interrupted(bool),
}

/// The audio bytes gathered from a model turn.
pub struct GeminiAudioStream {
    pub data: Vec<u8>,
}

/// `part` holds no text, or no inline data.
pub open spec fn part_is_empty(part: Part) -> bool {
    match part {
        Part::Text(s) => s@.len() == 0,
        Part::InlineData(blob) => blob.data@.len() == 0,
    }
}

/// `content` has no parts, or only empty ones.
pub open spec fn content_is_empty(content: Content) -> bool {
    forall|i: int| 0 <= i < content.parts@.len() ==> #[trigger] part_is_empty(content.parts@[i])
}

/// `content` has the role `role` and one text part reading `text`.
pub open spec fn is_text_content(content: Content, role: Option<Role>, text: Seq<char>) -> bool {
    &&& content.role == role
    &&& content.parts@.len() == 1
    &&& content.parts@[0] matches Part::Text(t) && t@ == text
}

/// The bytes that a part adds to an audio stream: the bytes of the text of
/// inline data, nothing for text.
pub open spec fn part_audio(part: Part) -> Seq<u8> {
    match part {
        Part::InlineData(blob) => encode_utf8(blob.data@),
        Part::Text(_) => Seq::empty(),
    }
}

/// The bytes of all inline data in `parts`, in order.
pub open spec fn audio_bytes(parts: Seq<Part>) -> Seq<u8>
    decreases parts.len(),
{
    if parts.len() == 0 {
        Seq::empty()
    } else {
        audio_bytes(parts.drop_last()) + part_audio(parts.last())
    }
}

impl Part {
    /// Whether the part holds no text, or no inline data.
    pub fn is_empty(&self) -> (empty: bool)
        ensures
            empty == part_is_empty(*self),
    {
        match self {
            Part::Text(s) => s.as_str().is_empty(),
            Part::InlineData(blob) => blob.data.as_str().is_empty(),
        }
    }
}

impl Content {
    /// A user turn with one text part.
    pub fn new(string: &str) -> (content: Self)
        ensures
            is_text_content(content, Some(Role::User), string@),
    {
        let mut parts = Vec::new();
        parts.push(Part::Text(String::from_str(string)));
        Self { role: Some(Role::User), parts }
    }

    /// A system instruction: one text part and no role.
    pub fn new_system(string: &str) -> (content: Self)
        ensures
            is_text_content(content, None, string@),
    {
        let mut parts = Vec::new();
        parts.push(Part::Text(String::from_str(string)));
        Self { role: None, parts }
    }

    /// Whether the content has no parts, or only empty ones.
    pub fn is_empty(&self) -> (empty: bool)
        ensures
            empty == content_is_empty(*self),
    {
        let n = self.parts.len();
        let mut i: usize = 0;
        while i < n
            invariant
                n == self.parts@.len(),
                i <= n,
                forall|k: int| 0 <= k < i ==> #[trigger] part_is_empty(self.parts@[k]),
            decreases n - i,
        {
            if !self.parts[i].is_empty() {
                return false;
            }
            i += 1;
        }
        true
    }
}

impl Default for Content {
    /// No role and no parts.
    fn default() -> (content: Self)
        ensures
            content.role is None,
            content.parts@.len() == 0,
    {
        Content { role: None, parts: Vec::new() }
    }
}

impl GeminiAudioStream {
    /// Gathers the inline data of a model turn into one audio buffer: the
    /// bytes of each inline part's data, in order; text parts add nothing.
    pub fn new(content: Content) -> (stream: Self)
        ensures
            stream.data@ == audio_bytes(content.parts@),
    {
        let mut data: Vec<u8> = Vec::new();
        let n = content.parts.len();
        let mut i: usize = 0;
        while i < n
            invariant
                n == content.parts@.len(),
                i <= n,
                data@ == audio_bytes(content.parts@.take(i as int)),
            decreases n - i,
        {
            assert(content.parts@.take(i + 1).drop_last() =~= content.parts@.take(i as int));
            match &content.parts[i] {
                Part::InlineData(blob) => {
                    data.extend_from_slice(blob.data.as_str().as_bytes());
                },
                Part::Text(_) => {},
            }
            assert(data@ =~= audio_bytes(content.parts@.take(i + 1)));
            i += 1;
        }
        assert(content.parts@.take(n as int) =~= content.parts@);
        Self { data }
    }
}

/// The model the bot talks to.
pub open spec fn gemini_model() -> Seq<char> {
    "models/gemini-2.0-flash-exp"@
}

/// The bot's system instruction.
pub open spec fn system_instruction_text() -> Seq<char> {
    "You are a discord bot named Blinky."@
}

/// The prebuilt voice the model speaks with.
pub open spec fn voice_name() -> Seq<char> {
    "Aoede"@
}

/// `config` asks for audio answers only, spoken by the prebuilt voice
/// `voice`.
pub open spec fn is_audio_config(config: LiveGenerationConfig, voice: Seq<char>) -> bool {
    &&& config.response_modalities@ == seq![Modality::Audio]
    &&& config.speech_config matches Some(speech)
    &&& speech.voice_config matches Some(voice_config)
    &&& voice_config.prebuilt_voice_config matches Some(prebuilt)
    &&& prebuilt.voice_name@ == voice
}

/// `message` opens a session with the bot's model, its system instruction
/// and audio answers in its voice.
pub open spec fn is_setup_message(message: OutgoingMessage) -> bool {
    match message {
        OutgoingMessage::Setup { model, system_instruction, generation_config } => {
            &&& model@ == gemini_model()
            &&& is_text_content(system_instruction, None, system_instruction_text())
            &&& generation_config matches Some(config)
            &&& is_audio_config(config, voice_name())
        },
        _ => false,
    }
}

/// `message` sends one complete user turn of a single inline part with the
/// given Base64 text and MIME type.
pub open spec fn is_audio_turn(message: OutgoingMessage, data: Seq<char>, mime: Seq<char>) -> bool {
    match message {
        OutgoingMessage::ClientContent { turns, turn_complete } => {
            &&& turn_complete
            &&& turns@.len() == 1
            &&& turns@[0].role == Some(Role::User)
            &&& turns@[0].parts@.len() == 1
            &&& turns@[0].parts@[0] matches Part::InlineData(blob)
            &&& blob.data@ == data
            &&& blob.mime_type@ == mime
        },
        _ => false,
    }
}

/// The message that opens a session: the model, the system instruction and
/// audio answers in the Aoede voice.
pub fn setup_message() -> (message: OutgoingMessage)
    ensures
        is_setup_message(message),
{
    let mut response_modalities = Vec::new();
    response_modalities.push(Modality::Audio);
    OutgoingMessage::Setup {
        model: String::from_str("models/gemini-2.0-flash-exp"),
        system_instruction: Content::new_system("You are a discord bot named Blinky."),
        generation_config: Some(
            LiveGenerationConfig {
                response_modalities,
                speech_config: Some(
                    SpeechConfig {
                        voice_config: Some(
                            VoiceConfig {
                                prebuilt_voice_config: Some(
                                    PrebuiltVoiceConfig { voice_name: String::from_str("Aoede") },
                                ),
                            },
                        ),
                    },
                ),
            },
        ),
    }
}

/// The message that sends recorded audio as one complete user turn: a
/// single inline part with the Base64 text of `audio_data` and its MIME type.
pub fn realtime_audio_message(audio_data: &[u8], mime_type: &str) -> (message: OutgoingMessage)
    requires
        base64_len(audio_data@.len()) <= usize::MAX,
    ensures
        is_audio_turn(message, base64_standard(audio_data@), mime_type@),
{
    let mut parts = Vec::new();
    parts.push(
        Part::InlineData(
            GenerativeContentBlob {
                data: base64_encode(audio_data),
                mime_type: String::from_str(mime_type),
            },
        ),
    );
    let mut turns = Vec::new();
    turns.push(Content { role: Some(Role::User), parts });
    OutgoingMessage::ClientContent { turns, turn_complete: true }
}

/// A content of one text part is empty exactly when its text is.
pub proof fn lemma_text_content_empty(content: Content, role: Option<Role>, text: Seq<char>)
    requires
        is_text_content(content, role, text),
    ensures
        content_is_empty(content) <==> text.len() == 0,
{
    assert(part_is_empty(content.parts@[0]) <==> text.len() == 0);
}

/// Text parts carry no audio: a content whose parts are all text yields an
/// empty audio stream.
pub proof fn lemma_text_parts_carry_no_audio(parts: Seq<Part>)
    requires
        forall|i: int| 0 <= i < parts.len() ==> #[trigger] parts[i] is Text,
    ensures
        audio_bytes(parts) == Seq::<u8>::empty(),
    decreases parts.len(),
{
    if parts.len() > 0 {
        let front = parts.drop_last();
        assert forall|i: int| 0 <= i < front.len() implies #[trigger] front[i] is Text by {
            assert(front[i] == parts[i]);
        }
        lemma_text_parts_carry_no_audio(front);
        assert(parts[parts.len() - 1] is Text);
        assert(audio_bytes(parts) =~= Seq::<u8>::empty());
    }
}

/// The audio of two runs of parts, one after the other, is the audio of the
/// first followed by the audio of the second.
pub proof fn lemma_audio_bytes_append(a: Seq<Part>, b: Seq<Part>)
    ensures
        audio_bytes(a + b) == audio_bytes(a) + audio_bytes(b),
    decreases b.len(),
{
    if b.len() == 0 {
        assert(a + b =~= a);
        assert(audio_bytes(a) + audio_bytes(b) =~= audio_bytes(a));
    } else {
        assert((a + b).drop_last() =~= a + b.drop_last());
        lemma_audio_bytes_append(a, b.drop_last());
        assert((a + b).last() == b.last());
        assert(audio_bytes(a + b) =~= audio_bytes(a) + audio_bytes(b));
    }
}

/// An inline part adds the bytes of its data, whatever its MIME type; a
/// text part adds nothing.
pub proof fn lemma_single_part_audio(blob: GenerativeContentBlob, text: String)
    ensures
        audio_bytes(seq![Part::InlineData(blob)]) == encode_utf8(blob.data@),
        audio_bytes(seq![Part::Text(text)]) == Seq::<u8>::empty(),
{
    let one = seq![Part::InlineData(blob)];
    assert(one.drop_last() =~= Seq::<Part>::empty());
    assert(audio_bytes(Seq::<Part>::empty()) == Seq::<u8>::empty());
    assert(one.last() == Part::InlineData(blob));
    assert(part_audio(one.last()) == encode_utf8(blob.data@));
    assert(audio_bytes(one) =~= encode_utf8(blob.data@));
    let other = seq![Part::Text(text)];
    assert(other.drop_last() =~= Seq::<Part>::empty());
    assert(other.last() == Part::Text(text));
    assert(audio_bytes(other) =~= Seq::<u8>::empty());
}

/// A text part is empty when its text is, an inline part when its data is,
/// whatever its MIME type; a content is empty when each of its parts is.
pub proof fn lemma_part_emptiness(blob: GenerativeContentBlob, text: String, content: Content)
    ensures
        part_is_empty(Part::InlineData(blob)) <==> blob.data@.len() == 0,
        part_is_empty(Part::Text(text)) <==> text@.len() == 0,
        content.parts@.len() == 0 ==> content_is_empty(content),
        content_is_empty(content) <==> forall|i: int|
            0 <= i < content.parts@.len() ==> match #[trigger] content.parts@[i] {
                Part::Text(t) => t@.len() == 0,
                Part::InlineData(b) => b.data@.len() == 0,
            },
{
    assert forall|i: int| 0 <= i < content.parts@.len() implies part_is_empty(
        #[trigger] content.parts@[i],
    ) == match content.parts@[i] {
        Part::Text(t) => t@.len() == 0,
        Part::InlineData(b) => b.data@.len() == 0,
    } by {}
}

} // verus!
