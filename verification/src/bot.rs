//! How the bot reacts to gateway events: it routes slash commands, records
//! the voice session id and token that Discord hands out, and once the voice
//! server is known asks for a connection to it.

use crate::text::str_equal;
use vstd::prelude::*;

verus! {

/// The slash commands the bot knows.
#[derive(Debug, PartialEq, Eq, Structural)]
pub enum Command {
    Join,
}

/// `name` is the name of the `/join` command.
pub open spec fn names_join(name: Seq<char>) -> bool {
    name == "join"@
}

/// The text of the error for a command the bot does not know.
pub open spec fn unknown_command_message(name: Seq<char>) -> Seq<char> {
    "unknown command: "@ + name
}

/// The command called `name`, or the error that names it as unknown.
pub fn route_command(name: &str) -> (routed: Result<Command, String>)
    ensures
        names_join(name@) ==> routed == Ok::<Command, String>(Command::Join),
        !names_join(name@) ==> (routed matches Err(message) && message@
            == unknown_command_message(name@)),
{
    proof {
        reveal_strlit("join");
    }
    if str_equal(name, "join") {
        Ok(Command::Join)
    } else {
        let mut message = String::from_str("unknown command: ");
        message.append(name);
        Err(message)
    }
}

/// A gateway event, reduced to what the bot reads of it.
pub enum GatewayEvent {
    /// An interaction; `command` is the name of the application command it
    /// carries, `None` for any other kind of interaction.
    Interaction { command: Option<String> },
    /// A voice state changed; its session id is taken as the voice session.
    VoiceStateUpdate { session_id: String },
    /// Discord assigned the voice server of a guild.
    VoiceServerUpdate { guild_id: u64, token: String, endpoint: Option<String> },
    /// Any other event.
    Other,
}

/// What the bot does next.
pub enum BotAction {
    /// Nothing.
    Nothing,
    /// Skip an interaction that carries no command.
    IgnoreInteraction,
    /// Run a known command.
    RunCommand(Command),
    /// Report a command the bot does not know, with this message.
    RejectCommand(String),
    /// Open the voice gateway at `endpoint` for the guild `guild_id`.
    ConnectVoice { endpoint: String, session_id: String, token: String, guild_id: u64 },
}

/// The voice session id and token that Discord handed out so far.
pub struct VoiceSession {
    pub session_id: Option<String>,
    pub token: Option<String>,
}

/// An optional string by its characters.
pub open spec fn opt_view(s: Option<String>) -> Option<Seq<char>> {
    match s {
        Some(s) => Some(s@),
        None => None,
    }
}

/// A voice session by its values.
pub struct SessionView {
    pub session_id: Option<Seq<char>>,
    pub token: Option<Seq<char>>,
}

/// A gateway event by its values.
pub enum EventView {
    Interaction { command: Option<Seq<char>> },
    VoiceStateUpdate { session_id: Seq<char> },
    VoiceServerUpdate { guild_id: u64, token: Seq<char>, endpoint: Option<Seq<char>> },
    Other,
}

/// An action by its values.
pub enum ActionView {
    Nothing,
    IgnoreInteraction,
    RunCommand(Command),
    RejectCommand(Seq<char>),
    ConnectVoice { endpoint: Seq<char>, session_id: Seq<char>, token: Seq<char>, guild_id: u64 },
}

impl View for VoiceSession {
    type V = SessionView;

    open spec fn view(&self) -> SessionView {
        SessionView { session_id: opt_view(self.session_id), token: opt_view(self.token) }
    }
}

impl View for GatewayEvent {
    type V = EventView;

    open spec fn view(&self) -> EventView {
        match self {
            GatewayEvent::Interaction { command } => EventView::Interaction {
                command: opt_view(*command),
            },
            GatewayEvent::VoiceStateUpdate { session_id } => EventView::VoiceStateUpdate {
                session_id: session_id@,
            },
            GatewayEvent::VoiceServerUpdate { guild_id, token, endpoint } =>
                EventView::VoiceServerUpdate {
                guild_id: *guild_id,
                token: token@,
                endpoint: opt_view(*endpoint),
            },
            GatewayEvent::Other => EventView::Other,
        }
    }
}

impl View for BotAction {
    type V = ActionView;

    open spec fn view(&self) -> ActionView {
        match self {
            BotAction::Nothing => ActionView::Nothing,
            BotAction::IgnoreInteraction => ActionView::IgnoreInteraction,
            BotAction::RunCommand(command) => ActionView::RunCommand(*command),
            BotAction::RejectCommand(message) => ActionView::RejectCommand(message@),
            BotAction::ConnectVoice { endpoint, session_id, token, guild_id } =>
                ActionView::ConnectVoice {
                endpoint: endpoint@,
                session_id: session_id@,
                token: token@,
                guild_id: *guild_id,
            },
        }
    }
}

/// The bot can handle `event` in `session`: a voice server assignment comes
/// with an endpoint, and after the voice session id.
pub open spec fn can_handle(session: SessionView, event: EventView) -> bool {
    match event {
        EventView::VoiceServerUpdate { endpoint, .. } => endpoint is Some
            && session.session_id is Some,
        _ => true,
    }
}

/// The session after `event`.
pub open spec fn next_session(session: SessionView, event: EventView) -> SessionView {
    match event {
        EventView::VoiceStateUpdate { session_id } => SessionView {
            session_id: Some(session_id),
            token: session.token,
        },
        EventView::VoiceServerUpdate { token, .. } => SessionView {
            session_id: session.session_id,
            token: Some(token),
        },
        _ => session,
    }
}

/// What the bot does on `event` in `session`.
pub open spec fn action_for(session: SessionView, event: EventView) -> ActionView {
    match event {
        EventView::Interaction { command } => match command {
            None => ActionView::IgnoreInteraction,
            Some(name) => if names_join(name) {
                ActionView::RunCommand(Command::Join)
            } else {
                ActionView::RejectCommand(unknown_command_message(name))
            },
        },
        EventView::VoiceStateUpdate { .. } => ActionView::Nothing,
        EventView::VoiceServerUpdate { guild_id, token, endpoint } => ActionView::ConnectVoice {
            endpoint: endpoint.unwrap(),
            session_id: session.session_id.unwrap(),
            token,
            guild_id,
        },
        EventView::Other => ActionView::Nothing,
    }
}

impl VoiceSession {
    /// No session id and no token yet.
    pub fn new() -> (session: Self)
        ensures
            session@.session_id is None,
            session@.token is None,
    {
        VoiceSession { session_id: None, token: None }
    }

    /// Takes in one gateway event: records what it names of the voice
    /// session and says what the bot does next.
    pub fn handle_event(&mut self, event: GatewayEvent) -> (action: BotAction)
        requires
            can_handle(old(self)@, event@),
        ensures
            final(self)@ == next_session(old(self)@, event@),
            action@ == action_for(old(self)@, event@),
    {
        match event {
            GatewayEvent::Interaction { command } => match command {
                None => BotAction::IgnoreInteraction,
                Some(name) => match route_command(name.as_str()) {
                    Ok(command) => BotAction::RunCommand(command),
                    Err(message) => BotAction::RejectCommand(message),
                },
            },
            GatewayEvent::VoiceStateUpdate { session_id } => {
                self.session_id = Some(session_id);
                BotAction::Nothing
            },
            GatewayEvent::VoiceServerUpdate { guild_id, token, endpoint } => {
                let session_id = self.session_id.as_ref().unwrap().clone();
                let endpoint = endpoint.unwrap();
                self.token = Some(token.clone());
                BotAction::ConnectVoice { endpoint, session_id, token, guild_id }
            },
            GatewayEvent::Other => BotAction::Nothing,
        }
    }
}

/// Once Discord has named the voice session and then assigned a voice
/// server, the bot connects to that server with that session id and the
/// token that came with the assignment.
pub proof fn lemma_connect_uses_latest_session(
    session: SessionView,
    session_id: Seq<char>,
    guild_id: u64,
    token: Seq<char>,
    endpoint: Seq<char>,
)
    ensures
        ({
            let named = next_session(
                session,
                EventView::VoiceStateUpdate { session_id },
            );
            let assigned = EventView::VoiceServerUpdate { guild_id, token, endpoint: Some(endpoint) };
            &&& can_handle(named, assigned)
            &&& action_for(named, assigned) == ActionView::ConnectVoice {
                endpoint,
                session_id,
                token,
                guild_id,
            }
            &&& next_session(named, assigned) == SessionView {
                session_id: Some(session_id),
                token: Some(token),
            }
        }),
{
}

/// Interactions leave the voice session as it was.
pub proof fn lemma_interactions_keep_session(session: SessionView, command: Option<Seq<char>>)
    ensures
        next_session(session, EventView::Interaction { command }) == session,
{
}

/// Events that name no voice session or server leave the session as it was
/// and ask for nothing.
pub proof fn lemma_other_events_keep_session(session: SessionView)
    ensures
        next_session(session, EventView::Other) == session,
        action_for(session, EventView::Other) == ActionView::Nothing,
{
}

/// The session after a run of events, taken in order.
pub open spec fn after_events(session: SessionView, events: Seq<EventView>) -> SessionView
    decreases events.len(),
{
    if events.len() == 0 {
        session
    } else {
        next_session(after_events(session, events.drop_last()), events.last())
    }
}

/// Interactions and other events, in any number, leave the session as it
/// was.
pub proof fn lemma_unrelated_events_keep_session(session: SessionView, events: Seq<EventView>)
    requires
        forall|i: int|
            0 <= i < events.len() ==> (#[trigger] events[i] is Interaction || events[i] is Other),
    ensures
        after_events(session, events) == session,
    decreases events.len(),
{
    if events.len() > 0 {
        let front = events.drop_last();
        assert forall|i: int| 0 <= i < front.len() implies (#[trigger] front[i] is Interaction
            || front[i] is Other) by {
            assert(front[i] == events[i]);
        }
        lemma_unrelated_events_keep_session(session, front);
        assert(events[events.len() - 1] is Interaction || events[events.len() - 1] is Other);
    }
}

/// After Discord names the voice session, any run of interactions and other
/// events may pass; a voice server assignment then still connects with that
/// session id and the assignment's token.
pub proof fn lemma_connect_after_unrelated_events(
    session: SessionView,
    session_id: Seq<char>,
    events: Seq<EventView>,
    guild_id: u64,
    token: Seq<char>,
    endpoint: Seq<char>,
)
    requires
        forall|i: int|
            0 <= i < events.len() ==> (#[trigger] events[i] is Interaction || events[i] is Other),
    ensures
        ({
            let named = after_events(
                next_session(session, EventView::VoiceStateUpdate { session_id }),
                events,
            );
            let assigned = EventView::VoiceServerUpdate { guild_id, token, endpoint: Some(endpoint) };
            &&& named.session_id == Some(session_id)
            &&& can_handle(named, assigned)
            &&& action_for(named, assigned) == ActionView::ConnectVoice {
                endpoint,
                session_id,
                token,
                guild_id,
            }
        }),
{
    lemma_unrelated_events_keep_session(
        next_session(session, EventView::VoiceStateUpdate { session_id }),
        events,
    );
}

/// An interaction without a command is skipped; `join` runs the join
/// command; any other name is refused with "unknown command: " and the name.
/// None of them touches the session.
pub proof fn lemma_interaction_actions(session: SessionView, name: Seq<char>)
    ensures
        action_for(session, EventView::Interaction { command: None })
            == ActionView::IgnoreInteraction,
        name == "join"@ ==> action_for(session, EventView::Interaction { command: Some(name) })
            == ActionView::RunCommand(Command::Join),
        name != "join"@ ==> action_for(session, EventView::Interaction { command: Some(name) })
            == ActionView::RejectCommand("unknown command: "@ + name),
        next_session(session, EventView::Interaction { command: Some(name) }) == session,
{
}

} // verus!
