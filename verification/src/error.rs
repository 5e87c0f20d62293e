//! What can go wrong, as the user is told of it.
//!
//! A type with a text parameter `S` is the value itself with `String`, which is
//! the default, and its view with `Seq<char>`.
use crate::text::{decimal, decimal_of, joined, joined3, owned};
use vstd::prelude::*;

verus! {

/// Errors of the files that sessions are kept in.
#[derive(Debug, Clone, PartialEq, Eq)]
pub enum StoreError<S = String> {
    CreateDir { dir: S, source: S },
    CreateFile { path: S, source: S },
    AlreadyExists(S),
    OpenFile { path: S, source: S },
    WriteFile { path: S, source: S },
    ReadFile { path: S, source: S },
    ReadDir { path: S, source: S },
    SetPermissions { path: S, source: S },
    NotFound(S),
    Locked(S),
}

impl View for StoreError {
    type V = StoreError<Seq<char>>;

    open spec fn view(&self) -> StoreError<Seq<char>> {
        match self {
            StoreError::CreateDir { dir, source } => StoreError::CreateDir {
                dir: dir@,
                source: source@,
            },
            StoreError::CreateFile { path, source } => StoreError::CreateFile {
                path: path@,
                source: source@,
            },
            StoreError::AlreadyExists(path) => StoreError::AlreadyExists(path@),
            StoreError::OpenFile { path, source } => StoreError::OpenFile {
                path: path@,
                source: source@,
            },
            StoreError::WriteFile { path, source } => StoreError::WriteFile {
                path: path@,
                source: source@,
            },
            StoreError::ReadFile { path, source } => StoreError::ReadFile {
                path: path@,
                source: source@,
            },
            StoreError::ReadDir { path, source } => StoreError::ReadDir {
                path: path@,
                source: source@,
            },
            StoreError::SetPermissions { path, source } => StoreError::SetPermissions {
                path: path@,
                source: source@,
            },
            StoreError::NotFound(path) => StoreError::NotFound(path@),
            StoreError::Locked(path) => StoreError::Locked(path@),
        }
    }
}

/// What a store error says.
pub open spec fn store_message(error: StoreError<Seq<char>>) -> Seq<char> {
    match error {
        StoreError::CreateDir { dir, source } => "failed to create directory "@ + dir + ": "@
            + source,
        StoreError::CreateFile { path, source } => "failed to create file "@ + path + ": "@
            + source,
        StoreError::AlreadyExists(path) => "file already exists: "@ + path,
        StoreError::OpenFile { path, source } => "failed to open file "@ + path + ": "@ + source,
        StoreError::WriteFile { path, source } => "failed to write to file "@ + path + ": "@
            + source,
        StoreError::ReadFile { path, source } => "failed to read file "@ + path + ": "@ + source,
        StoreError::ReadDir { path, source } => "failed to read directory "@ + path + ": "@
            + source,
        StoreError::SetPermissions { path, source } => "failed to set permissions on "@ + path
            + ": "@ + source,
        StoreError::NotFound(path) => "file not found: "@ + path,
        StoreError::Locked(path) => "file is locked by another writer: "@ + path,
    }
}

fn about(what: &str, path: &str, source: &str) -> (out: String)
    ensures
        out@ == what@ + path@ + ": "@ + source@,
{
    let mut out = joined3(what, path, ": ");
    out.push_str(source);
    out
}

impl StoreError {
    /// What the error says.
    pub fn message(&self) -> (out: String)
        ensures
            out@ == store_message(self@),
    {
        match self {
            StoreError::CreateDir { dir, source } => about(
                "failed to create directory ",
                dir.as_str(),
                source.as_str(),
            ),
            StoreError::CreateFile { path, source } => about(
                "failed to create file ",
                path.as_str(),
                source.as_str(),
            ),
            StoreError::AlreadyExists(path) => joined("file already exists: ", path.as_str()),
            StoreError::OpenFile { path, source } => about(
                "failed to open file ",
                path.as_str(),
                source.as_str(),
            ),
            StoreError::WriteFile { path, source } => about(
                "failed to write to file ",
                path.as_str(),
                source.as_str(),
            ),
            StoreError::ReadFile { path, source } => about(
                "failed to read file ",
                path.as_str(),
                source.as_str(),
            ),
            StoreError::ReadDir { path, source } => about(
                "failed to read directory ",
                path.as_str(),
                source.as_str(),
            ),
            StoreError::SetPermissions { path, source } => about(
                "failed to set permissions on ",
                path.as_str(),
                source.as_str(),
            ),
            StoreError::NotFound(path) => joined("file not found: ", path.as_str()),
            StoreError::Locked(path) => joined("file is locked by another writer: ", path.as_str()),
        }
    }
}

/// Errors of sessions, on top of those of their files.
#[derive(Debug, Clone, PartialEq, Eq)]
pub enum SessionError<S = String> {
    Store(StoreError<S>),
    InvalidHeader { path: S, reason: S },
    UnsupportedVersion { version: u16, supported: u16, path: S },
    MalformedRecord { path: S, reason: S },
    Serialize { path: S, source: S },
}

impl View for SessionError {
    type V = SessionError<Seq<char>>;

    open spec fn view(&self) -> SessionError<Seq<char>> {
        match self {
            SessionError::Store(error) => SessionError::Store(error@),
            SessionError::InvalidHeader { path, reason } => SessionError::InvalidHeader {
                path: path@,
                reason: reason@,
            },
            SessionError::UnsupportedVersion { version, supported, path } =>
                SessionError::UnsupportedVersion {
                version: *version,
                supported: *supported,
                path: path@,
            },
            SessionError::MalformedRecord { path, reason } => SessionError::MalformedRecord {
                path: path@,
                reason: reason@,
            },
            SessionError::Serialize { path, source } => SessionError::Serialize {
                path: path@,
                source: source@,
            },
        }
    }
}

/// What a session error says.
pub open spec fn session_message(error: SessionError<Seq<char>>) -> Seq<char> {
    match error {
        SessionError::Store(error) => store_message(error),
        SessionError::InvalidHeader { path, reason } => "invalid session header in "@ + path
            + ": "@ + reason,
        SessionError::UnsupportedVersion { version, supported, path } =>
            "unsupported session schema version "@ + decimal(version as nat) + " in "@ + path
            + " (supported: "@ + decimal(supported as nat) + ")"@,
        SessionError::MalformedRecord { path, reason } => "malformed session record in "@ + path
            + ": "@ + reason,
        SessionError::Serialize { path, source } => "failed to serialize session record for "@
            + path + ": "@ + source,
    }
}

impl SessionError {
    /// What the error says.
    pub fn message(&self) -> (out: String)
        ensures
            out@ == session_message(self@),
    {
        match self {
            SessionError::Store(error) => error.message(),
            SessionError::InvalidHeader { path, reason } => about(
                "invalid session header in ",
                path.as_str(),
                reason.as_str(),
            ),
            SessionError::UnsupportedVersion { version, supported, path } => {
                let mut out = joined3(
                    "unsupported session schema version ",
                    decimal_of(*version as u64).as_str(),
                    " in ",
                );
                out.push_str(path.as_str());
                out.push_str(" (supported: ");
                out.push_str(decimal_of(*supported as u64).as_str());
                out.push_str(")");
                out
            },
            SessionError::MalformedRecord { path, reason } => about(
                "malformed session record in ",
                path.as_str(),
                reason.as_str(),
            ),
            SessionError::Serialize { path, source } => about(
                "failed to serialize session record for ",
                path.as_str(),
                source.as_str(),
            ),
        }
    }
}

/// Errors of a model or of the way to it.
#[derive(Debug, Clone, PartialEq, Eq)]
pub enum ModelError<S = String> {
    /// No credential is stored for the model's provider.
    MissingAuth,
    /// The request cannot be made as it stands.
    Configuration(S),
    /// Any other failure, with what it says.
    Failed(S),
}

impl View for ModelError {
    type V = ModelError<Seq<char>>;

    open spec fn view(&self) -> ModelError<Seq<char>> {
        match self {
            ModelError::MissingAuth => ModelError::MissingAuth,
            ModelError::Configuration(text) => ModelError::Configuration(text@),
            ModelError::Failed(text) => ModelError::Failed(text@),
        }
    }
}

/// Errors of an agent's run.
#[derive(Debug, Clone, PartialEq, Eq)]
pub enum AgentError<S = String> {
    Model(ModelError<S>),
    ToolNotFound(S),
    MaxToolRounds,
    Aborted,
    EventStreamClosed,
    Tool(S),
    Session(SessionError<S>),
}

impl View for AgentError {
    type V = AgentError<Seq<char>>;

    open spec fn view(&self) -> AgentError<Seq<char>> {
        match self {
            AgentError::Model(error) => AgentError::Model(error@),
            AgentError::ToolNotFound(name) => AgentError::ToolNotFound(name@),
            AgentError::MaxToolRounds => AgentError::MaxToolRounds,
            AgentError::Aborted => AgentError::Aborted,
            AgentError::EventStreamClosed => AgentError::EventStreamClosed,
            AgentError::Tool(text) => AgentError::Tool(text@),
            AgentError::Session(error) => AgentError::Session(error@),
        }
    }
}

/// What an agent error says.
pub open spec fn agent_message(error: AgentError<Seq<char>>) -> Seq<char> {
    match error {
        AgentError::Model(ModelError::MissingAuth) => "no credential for the model's provider"@,
        AgentError::Model(ModelError::Configuration(text)) => text,
        AgentError::Model(ModelError::Failed(text)) => text,
        AgentError::ToolNotFound(name) => "tool not found: "@ + name,
        AgentError::MaxToolRounds => "maximum tool rounds exceeded"@,
        AgentError::Aborted => "agent request aborted"@,
        AgentError::EventStreamClosed => "agent event stream closed"@,
        AgentError::Tool(text) => text,
        AgentError::Session(error) => session_message(error),
    }
}

impl AgentError {
    /// What the error says.
    pub fn message(&self) -> (out: String)
        ensures
            out@ == agent_message(self@),
    {
        match self {
            AgentError::Model(ModelError::MissingAuth) => owned(
                "no credential for the model's provider",
            ),
            AgentError::Model(ModelError::Configuration(text)) => text.clone(),
            AgentError::Model(ModelError::Failed(text)) => text.clone(),
            AgentError::ToolNotFound(name) => joined("tool not found: ", name.as_str()),
            AgentError::MaxToolRounds => owned("maximum tool rounds exceeded"),
            AgentError::Aborted => owned("agent request aborted"),
            AgentError::EventStreamClosed => owned("agent event stream closed"),
            AgentError::Tool(text) => text.clone(),
            AgentError::Session(error) => error.message(),
        }
    }
}

/// An error of a file names the file and tells what was wrong with it, whole.
pub proof fn store_errors_name_the_file(path: Seq<char>, source: Seq<char>)
    ensures
        path.is_suffix_of(store_message(StoreError::AlreadyExists(path))),
        path.is_suffix_of(store_message(StoreError::NotFound(path))),
        path.is_suffix_of(store_message(StoreError::Locked(path))),
        (path + ": "@ + source).is_suffix_of(
            store_message(StoreError::CreateDir { dir: path, source }),
        ),
        (path + ": "@ + source).is_suffix_of(
            store_message(StoreError::CreateFile { path, source }),
        ),
        (path + ": "@ + source).is_suffix_of(store_message(StoreError::OpenFile { path, source })),
        (path + ": "@ + source).is_suffix_of(store_message(StoreError::WriteFile { path, source })),
        (path + ": "@ + source).is_suffix_of(store_message(StoreError::ReadFile { path, source })),
        (path + ": "@ + source).is_suffix_of(store_message(StoreError::ReadDir { path, source })),
        (path + ": "@ + source).is_suffix_of(
            store_message(StoreError::SetPermissions { path, source }),
        ),
{
    lemma_ends_in("file already exists: "@, path);
    lemma_ends_in("file not found: "@, path);
    lemma_ends_in("file is locked by another writer: "@, path);
    lemma_ends_in_both("failed to create directory "@, path, source);
    lemma_ends_in_both("failed to create file "@, path, source);
    lemma_ends_in_both("failed to open file "@, path, source);
    lemma_ends_in_both("failed to write to file "@, path, source);
    lemma_ends_in_both("failed to read file "@, path, source);
    lemma_ends_in_both("failed to read directory "@, path, source);
    lemma_ends_in_both("failed to set permissions on "@, path, source);
}

proof fn lemma_ends_in(what: Seq<char>, path: Seq<char>)
    ensures
        path.is_suffix_of(what + path),
{
    assert((what + path).skip((what + path).len() - path.len()) =~= path);
}

proof fn lemma_ends_in_both(what: Seq<char>, path: Seq<char>, source: Seq<char>)
    ensures
        (path + ": "@ + source).is_suffix_of(what + path + ": "@ + source),
{
    assert(what + path + ": "@ + source =~= what + (path + ": "@ + source));
    lemma_ends_in(what, path + ": "@ + source);
}

/// An error of a session names its file and the reason, whole; one of the file below it
/// is told as that one is.
pub proof fn session_errors_name_the_file(
    path: Seq<char>,
    reason: Seq<char>,
    error: StoreError<Seq<char>>,
)
    ensures
        session_message(SessionError::Store(error)) == store_message(error),
        (path + ": "@ + reason).is_suffix_of(
            session_message(SessionError::InvalidHeader { path, reason }),
        ),
        (path + ": "@ + reason).is_suffix_of(
            session_message(SessionError::MalformedRecord { path, reason }),
        ),
        (path + ": "@ + reason).is_suffix_of(
            session_message(SessionError::Serialize { path, source: reason }),
        ),
{
    lemma_ends_in_both("invalid session header in "@, path, reason);
    lemma_ends_in_both("malformed session record in "@, path, reason);
    lemma_ends_in_both("failed to serialize session record for "@, path, reason);
}

/// What a model, a tool or a session says is handed on whole, and a missing tool is
/// named.
pub proof fn agent_errors_say_what_came(text: Seq<char>, error: SessionError<Seq<char>>)
    ensures
        agent_message(AgentError::Model(ModelError::Configuration(text))) == text,
        agent_message(AgentError::Model(ModelError::Failed(text))) == text,
        agent_message(AgentError::Tool(text)) == text,
        agent_message(AgentError::Session(error)) == session_message(error),
        text.is_suffix_of(agent_message(AgentError::ToolNotFound(text))),
{
    lemma_ends_in("tool not found: "@, text);
}

} // verus!
