//! The records of a session file, and the session that they add up to.
use crate::context::{message_views, AgentMessage, AgentMessageView};
use crate::llm::{no_usage, ReasoningEffort, Usage};
use crate::session::dir::is_hex_digit;
use vstd::prelude::*;

verus! {

/// The version of the record format that is written here.
pub const SESSION_SCHEMA_VERSION: u16 = 1;

/// A conversation with what it was held about, in which directory and with
/// which model.
#[derive(Debug, Clone, PartialEq)]
pub struct Session {
    pub id: String,
    pub version: u16,
    /// The working directory.
    pub pwd: String,
    pub provider: String,
    pub model: String,
    pub thinking_level: Option<ReasoningEffort>,
    pub messages: Vec<AgentMessage>,
    pub usage: Usage,
    pub created_at_ms: u64,
    pub updated_at_ms: u64,
}

/// The view of a [`Session`].
pub struct SessionView {
    pub id: Seq<char>,
    pub version: u16,
    pub pwd: Seq<char>,
    pub provider: Seq<char>,
    pub model: Seq<char>,
    pub thinking_level: Option<ReasoningEffort>,
    pub messages: Seq<AgentMessageView>,
    pub usage: Usage,
    pub created_at_ms: u64,
    pub updated_at_ms: u64,
}

impl View for Session {
    type V = SessionView;

    open spec fn view(&self) -> SessionView {
        SessionView {
            id: self.id@,
            version: self.version,
            pwd: self.pwd@,
            provider: self.provider@,
            model: self.model@,
            thinking_level: self.thinking_level,
            messages: message_views(self.messages@),
            usage: self.usage,
            created_at_ms: self.created_at_ms,
            updated_at_ms: self.updated_at_ms,
        }
    }
}

/// One record of a session file.
#[derive(Debug, Clone, PartialEq)]
pub enum SessionRecord<S = String, M = AgentMessage> {
    /// The header, which stands first.
    Session {
        id: S,
        version: u16,
        pwd: S,
        provider: S,
        model: S,
        thinking_level: Option<ReasoningEffort>,
        created_at_ms: u64,
        updated_at_ms: u64,
    },
    /// A message has joined the conversation.
    Message { message: M, timestamp_ms: u64 },
    /// The usage of the conversation is now this.
    Usage { usage: Usage, timestamp_ms: u64 },
    /// The conversation goes on with this model.
    Model { provider: S, model: S, reasoning_effort: ReasoningEffort, timestamp_ms: u64 },
}

/// The view of a record.
pub type RecordView = SessionRecord<Seq<char>, AgentMessageView>;

impl View for SessionRecord {
    type V = SessionRecord<Seq<char>, AgentMessageView>;

    open spec fn view(&self) -> SessionRecord<Seq<char>, AgentMessageView> {
        match self {
            SessionRecord::Session {
                id,
                version,
                pwd,
                provider,
                model,
                thinking_level,
                created_at_ms,
                updated_at_ms,
            } => SessionRecord::Session {
                id: id@,
                version: *version,
                pwd: pwd@,
                provider: provider@,
                model: model@,
                thinking_level: *thinking_level,
                created_at_ms: *created_at_ms,
                updated_at_ms: *updated_at_ms,
            },
            SessionRecord::Message { message, timestamp_ms } => SessionRecord::Message {
                message: message@,
                timestamp_ms: *timestamp_ms,
            },
            SessionRecord::Usage { usage, timestamp_ms } => SessionRecord::Usage {
                usage: *usage,
                timestamp_ms: *timestamp_ms,
            },
            SessionRecord::Model { provider, model, reasoning_effort, timestamp_ms } =>
                SessionRecord::Model {
                provider: provider@,
                model: model@,
                reasoning_effort: *reasoning_effort,
                timestamp_ms: *timestamp_ms,
            },
        }
    }
}

/// The later of two times.
pub open spec fn later(a: u64, b: u64) -> u64 {
    if a < b {
        b
    } else {
        a
    }
}

/// The text of a random UUID: hexadecimal digits in groups of eight, four, four,
/// four and twelve, with dashes between them.
pub open spec fn is_uuid_text(s: Seq<char>) -> bool {
    &&& s.len() == 36
    &&& forall|i: int|
        0 <= i < 36 ==> if i == 8 || i == 13 || i == 18 || i == 23 {
            #[trigger] s[i] == '-'
        } else {
            is_hex_digit(s[i])
        }
    &&& s[14] == '4'
}

/// `uuid::Uuid::new_v4`, put into text by `Uuid::to_string`: a random UUID in
/// the hyphenated form, in small letters. Which one is left to chance.
#[verifier::external_body]
fn random_uuid() -> (out: String)
    ensures
        is_uuid_text(out@),
{
    uuid::Uuid::new_v4().to_string()
}

/// A new identifier, not known to be in use.
pub fn fresh_id() -> (out: String)
    ensures
        is_uuid_text(out@),
{
    random_uuid()
}

/// An empty session that was created at `now`.
pub open spec fn new_session(
    id: Seq<char>,
    pwd: Seq<char>,
    provider: Seq<char>,
    model: Seq<char>,
    thinking_level: Option<ReasoningEffort>,
    now: u64,
) -> SessionView {
    SessionView {
        id,
        version: SESSION_SCHEMA_VERSION,
        pwd,
        provider,
        model,
        thinking_level,
        messages: Seq::empty(),
        usage: no_usage(),
        created_at_ms: now,
        updated_at_ms: now,
    }
}

/// The header of a session.
pub open spec fn header_of(session: SessionView) -> RecordView {
    SessionRecord::Session {
        id: session.id,
        version: session.version,
        pwd: session.pwd,
        provider: session.provider,
        model: session.model,
        thinking_level: session.thinking_level,
        created_at_ms: session.created_at_ms,
        updated_at_ms: session.updated_at_ms,
    }
}

/// A session after one more record. A message joins the conversation, a usage
/// replaces the one before, a model takes over; a header changes nothing but the
/// time. The session was updated when the latest of its records was made.
pub open spec fn recorded(session: SessionView, record: RecordView) -> SessionView {
    let updated_at_ms = later(session.updated_at_ms, record_time(record));
    match record {
        SessionRecord::Session { .. } => SessionView { updated_at_ms, ..session },
        SessionRecord::Message { message, .. } => SessionView {
            messages: session.messages.push(message),
            updated_at_ms,
            ..session
        },
        SessionRecord::Usage { usage, .. } => SessionView { usage, updated_at_ms, ..session },
        SessionRecord::Model { provider, model, reasoning_effort, .. } => SessionView {
            provider,
            model,
            thinking_level: Some(reasoning_effort),
            updated_at_ms,
            ..session
        },
    }
}

impl Session {
    /// An empty session with a new identifier.
    pub fn new(
        pwd: String,
        provider: String,
        model: String,
        thinking_level: Option<ReasoningEffort>,
        now: u64,
    ) -> (out: Session)
        ensures
            is_uuid_text(out.id@),
            out@ == new_session(out.id@, pwd@, provider@, model@, thinking_level, now),
    {
        Session::with_id(fresh_id(), pwd, provider, model, thinking_level, now)
    }

    /// An empty session with a given identifier.
    pub fn with_id(
        id: String,
        pwd: String,
        provider: String,
        model: String,
        thinking_level: Option<ReasoningEffort>,
        now: u64,
    ) -> (out: Session)
        ensures
            out@ == new_session(id@, pwd@, provider@, model@, thinking_level, now),
    {
        let messages: Vec<AgentMessage> = Vec::new();
        assert(message_views(messages@) =~= Seq::empty());
        Session {
            id,
            version: SESSION_SCHEMA_VERSION,
            pwd,
            provider,
            model,
            thinking_level,
            messages,
            usage: Usage::default(),
            created_at_ms: now,
            updated_at_ms: now,
        }
    }

    /// The header of the session.
    pub fn header_record(&self) -> (out: SessionRecord)
        ensures
            out@ == header_of(self@),
    {
        SessionRecord::Session {
            id: self.id.clone(),
            version: self.version,
            pwd: self.pwd.clone(),
            provider: self.provider.clone(),
            model: self.model.clone(),
            thinking_level: self.thinking_level,
            created_at_ms: self.created_at_ms,
            updated_at_ms: self.updated_at_ms,
        }
    }

    /// Apply one record.
    pub fn record(&mut self, record: SessionRecord)
        ensures
            final(self)@ == recorded(old(self)@, record@),
    {
        let time = record.timestamp_ms();
        match record {
            SessionRecord::Session { .. } => {},
            SessionRecord::Message { message, .. } => {
                let ghost before = message_views(self.messages@);
                self.messages.push(message);
                assert(message_views(self.messages@) =~= before.push(message@));
            },
            SessionRecord::Usage { usage, .. } => {
                self.usage = usage;
            },
            SessionRecord::Model { provider, model, reasoning_effort, .. } => {
                self.provider = provider;
                self.model = model;
                self.thinking_level = Some(reasoning_effort);
            },
        }
        if self.updated_at_ms < time {
            self.updated_at_ms = time;
        }
    }

    /// Go on with another model.
    pub fn set_model(&mut self, provider: String, model: String, effort: ReasoningEffort)
        ensures
            final(self)@ == (SessionView {
                provider: provider@,
                model: model@,
                thinking_level: Some(effort),
                ..old(self)@
            }),
    {
        self.provider = provider;
        self.model = model;
        self.thinking_level = Some(effort);
    }
}

/// The time that a record tells.
pub open spec fn record_time(record: RecordView) -> u64 {
    match record {
        SessionRecord::Session { updated_at_ms, .. } => updated_at_ms,
        SessionRecord::Message { timestamp_ms, .. } => timestamp_ms,
        SessionRecord::Usage { timestamp_ms, .. } => timestamp_ms,
        SessionRecord::Model { timestamp_ms, .. } => timestamp_ms,
    }
}

impl SessionRecord {
    /// The time that the record tells.
    pub fn timestamp_ms(&self) -> (out: u64)
        ensures
            out == record_time(self@),
    {
        match self {
            SessionRecord::Session { updated_at_ms, .. } => *updated_at_ms,
            SessionRecord::Message { timestamp_ms, .. } => *timestamp_ms,
            SessionRecord::Usage { timestamp_ms, .. } => *timestamp_ms,
            SessionRecord::Model { timestamp_ms, .. } => *timestamp_ms,
        }
    }
}

/// A session without its conversation.
#[derive(Debug, Clone, PartialEq)]
pub struct SessionSummary {
    pub id: String,
    pub pwd: String,
    pub provider: String,
    pub model: String,
    pub thinking_level: Option<ReasoningEffort>,
    pub created_at_ms: u64,
    pub updated_at_ms: u64,
    pub usage: Usage,
}

/// A session was last updated when the latest of its records was made, and never
/// before it was updated already.
pub proof fn sessions_are_as_new_as_their_records(session: SessionView, record: RecordView)
    ensures
        ({
            let time = match record {
                SessionRecord::Session { updated_at_ms, .. } => updated_at_ms,
                SessionRecord::Message { timestamp_ms, .. } => timestamp_ms,
                SessionRecord::Usage { timestamp_ms, .. } => timestamp_ms,
                SessionRecord::Model { timestamp_ms, .. } => timestamp_ms,
            };
            let after = recorded(session, record);
            &&& after.updated_at_ms >= session.updated_at_ms
            &&& after.updated_at_ms >= time
            &&& after.updated_at_ms == session.updated_at_ms || after.updated_at_ms == time
            &&& after.created_at_ms == session.created_at_ms
        }),
{
}

/// A record changes what it is about and nothing else: a message joins the end of
/// the conversation, a usage replaces the one before, a model takes over with its
/// effort.
pub proof fn records_change_what_they_are_about(
    session: SessionView,
    message: AgentMessageView,
    usage: Usage,
    provider: Seq<char>,
    model: Seq<char>,
    reasoning_effort: ReasoningEffort,
    timestamp_ms: u64,
)
    ensures
        ({
            let said = recorded(session, SessionRecord::Message { message, timestamp_ms });
            let used = recorded(session, SessionRecord::Usage { usage, timestamp_ms });
            let switched = recorded(
                session,
                SessionRecord::Model { provider, model, reasoning_effort, timestamp_ms },
            );
            &&& said == (SessionView {
                messages: session.messages.push(message),
                updated_at_ms: said.updated_at_ms,
                ..session
            })
            &&& used == (SessionView { usage, updated_at_ms: used.updated_at_ms, ..session })
            &&& switched == (SessionView {
                provider,
                model,
                thinking_level: Some(reasoning_effort),
                updated_at_ms: switched.updated_at_ms,
                ..session
            })
        }),
{
}

/// The header of a session tells all that is known of it before anything was said,
/// and a new session has nothing said and nothing used.
pub proof fn headers_tell_the_session(
    id: Seq<char>,
    pwd: Seq<char>,
    provider: Seq<char>,
    model: Seq<char>,
    thinking_level: Option<ReasoningEffort>,
    now: u64,
)
    ensures
        ({
            let session = new_session(id, pwd, provider, model, thinking_level, now);
            &&& session.messages.len() == 0
            &&& session.usage.input_tokens == 0
            &&& session.usage.output_tokens == 0
            &&& header_of(session) == (SessionRecord::<Seq<char>, AgentMessageView>::Session {
                id,
                version: 1,
                pwd,
                provider,
                model,
                thinking_level,
                created_at_ms: now,
                updated_at_ms: now,
            })
        }),
{
}

/// Nothing of a session or of a record is lost to its view: every message is seen, in
/// order, with the usage of the conversation.
pub proof fn sessions_are_seen_whole(
    session: Session,
    i: int,
    message: AgentMessage,
    usage: Usage,
    timestamp_ms: u64,
)
    ensures
        session@.id == session.id@,
        session@.pwd == session.pwd@,
        session@.provider == session.provider@,
        session@.model == session.model@,
        session@.usage == session.usage,
        session@.messages.len() == session.messages@.len(),
        0 <= i < session.messages@.len() ==> session@.messages[i] == session.messages@[i]@,
        ({
            let kept = (SessionRecord::Message { message, timestamp_ms })@;
            &&& kept is Message
            &&& kept->Message_message == message@
            &&& kept->Message_timestamp_ms == timestamp_ms
        }),
        ({
            let kept = (SessionRecord::<String, AgentMessage>::Usage { usage, timestamp_ms })@;
            &&& kept is Usage
            &&& kept->Usage_usage == usage
            &&& kept->Usage_timestamp_ms == timestamp_ms
        }),
{
}

} // verus!
