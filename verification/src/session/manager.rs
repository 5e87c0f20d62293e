//! Sessions in their files: where each is kept, and how it is read back.
use crate::error::SessionError;
use crate::llm::{no_usage, ReasoningEffort, Usage};
use crate::context::{message_views, AgentMessage, AgentMessageView};
use crate::path::{
    join_path, names_stand_under_their_base, path_debug_text, quoted_path, under,
};
use crate::session::dir::{is_hex_digit, key_of, keys_are_sixteen_hex_digits, pwd_key};
use crate::session::record::{
    header_of, is_uuid_text, later, new_session, recorded, RecordView, Session, SessionRecord,
    SessionView, SESSION_SCHEMA_VERSION,
};
use crate::text::{chars_of, debug_text, joined, joined3, owned, quoted, same};
use vstd::prelude::*;

verus! {

/// Sessions kept under one directory.
pub struct SessionManager {
    pub root: String,
}

/// A character that a session identifier may hold.
pub open spec fn id_char(c: char) -> bool {
    'a' <= c <= 'z' || 'A' <= c <= 'Z' || '0' <= c <= '9' || c == '-'
}

/// A session identifier: one to sixty-four letters, digits or dashes. Such a
/// name cannot lead out of the directory that it is put in.
pub open spec fn valid_id(id: Seq<char>) -> bool {
    &&& 0 < id.len() <= 64
    &&& forall|i: int| 0 <= i < id.len() ==> id_char(#[trigger] id[i])
}

/// The error for something that is no session identifier.
pub open spec fn invalid_id(id: Seq<char>) -> SessionError<Seq<char>> {
    SessionError::MalformedRecord {
        path: id,
        reason: "session id must be 1-64 ascii alphanumerics or dashes"@,
    }
}

/// Refuse what is no session identifier.
pub fn validate_session_id(id: &str) -> (out: Result<(), SessionError>)
    ensures
        match out {
            Ok(_) => valid_id(id@),
            Err(error) => !valid_id(id@) && error@ == invalid_id(id@),
        },
{
    let chars = chars_of(id);
    let mut valid: bool = chars.len() > 0 && chars.len() <= 64;
    let mut i: usize = 0;
    while i < chars.len()
        invariant
            i <= chars@.len(),
            chars@ == id@,
            valid == (0 < id@.len() <= 64 && forall|k: int|
                0 <= k < i ==> id_char(#[trigger] id@[k])),
        decreases chars@.len() - i,
    {
        let c: char = chars[i];
        let good = ('a' <= c && c <= 'z') || ('A' <= c && c <= 'Z') || ('0' <= c && c <= '9') || c
            == '-';
        assert(good == id_char(id@[i as int]));
        valid = valid && good;
        i += 1;
    }
    if valid {
        Ok(())
    } else {
        Err(
            SessionError::MalformedRecord {
                path: owned(id),
                reason: owned("session id must be 1-64 ascii alphanumerics or dashes"),
            },
        )
    }
}

/// The identifiers that are made for new sessions are valid ones.
pub proof fn fresh_ids_are_valid(id: Seq<char>)
    requires
        is_uuid_text(id),
    ensures
        valid_id(id),
{
    assert forall|i: int| 0 <= i < id.len() implies id_char(#[trigger] id[i]) by {}
}

/// The file of a session.
pub open spec fn file_of(root: Seq<char>, key: Seq<char>, name: Seq<char>) -> Seq<char> {
    under(under(root, key), name + ".jsonl"@)
}

/// The file of the session `id` that was held in the directory `pwd`.
pub open spec fn session_file(root: Seq<char>, pwd: Seq<char>, id: Seq<char>) -> Seq<char> {
    file_of(root, key_of(pwd), id)
}

/// Whether `out` is a record and the file of the session that it goes to, or the
/// error for a session identifier that is none.
pub open spec fn appended(
    out: Result<(String, SessionRecord), SessionError>,
    root: Seq<char>,
    pwd: Seq<char>,
    session_id: Seq<char>,
    record: RecordView,
) -> bool {
    match out {
        Ok((path, kept)) => {
            &&& valid_id(session_id)
            &&& path@ == session_file(root, pwd, session_id)
            &&& kept@ == record
        },
        Err(error) => !valid_id(session_id) && error@ == invalid_id(session_id),
    }
}

impl SessionManager {
    /// Sessions kept under `root`. Nothing is made there yet.
    pub fn new(root: String) -> (out: SessionManager)
        ensures
            out.root == root,
    {
        SessionManager { root }
    }

    fn file_path(&self, key: &str, name: &str) -> (out: String)
        ensures
            out@ == file_of(self.root@, key@, name@),
    {
        join_path(join_path(self.root.as_str(), key).as_str(), joined(name, ".jsonl").as_str())
    }

    /// The file of a session, where its identifier is a valid one.
    pub fn session_path(&self, session_id: &str, pwd: &str) -> (out: Result<String, SessionError>)
        ensures
            match out {
                Ok(path) => valid_id(session_id@) && path@ == session_file(
                    self.root@,
                    pwd@,
                    session_id@,
                ),
                Err(error) => !valid_id(session_id@) && error@ == invalid_id(session_id@),
            },
    {
        match validate_session_id(session_id) {
            Ok(_) => Ok(self.file_path(pwd_key(pwd).as_str(), session_id)),
            Err(error) => Err(error),
        }
    }

    /// A new session for the directory `pwd`, the directory that its file goes
    /// into and the file itself.
    pub fn create(
        &self,
        pwd: String,
        provider: String,
        model: String,
        thinking_level: Option<ReasoningEffort>,
        now: u64,
    ) -> (out: (Session, String, String))
        ensures
            is_uuid_text(out.0.id@),
            out.0@ == new_session(out.0.id@, pwd@, provider@, model@, thinking_level, now),
            out.1@ == under(self.root@, key_of(pwd@)),
            out.2@ == session_file(self.root@, pwd@, out.0.id@),
    {
        let key = pwd_key(pwd.as_str());
        let session = Session::new(pwd, provider, model, thinking_level, now);
        let dir = join_path(self.root.as_str(), key.as_str());
        let path = self.file_path(key.as_str(), session.id.as_str());
        (session, dir, path)
    }

    fn append_record(&self, session_id: &str, pwd: &str, record: SessionRecord) -> (out: Result<
        (String, SessionRecord),
        SessionError,
    >)
        ensures
            appended(out, self.root@, pwd@, session_id@, record@),
    {
        match self.session_path(session_id, pwd) {
            Ok(path) => Ok((path, record)),
            Err(error) => Err(error),
        }
    }

    /// The record for a message of a session, and the file to append it to.
    pub fn append_message(
        &self,
        session_id: &str,
        pwd: &str,
        message: &AgentMessage,
        now: u64,
    ) -> (out: Result<(String, SessionRecord), SessionError>)
        ensures
            appended(
                out,
                self.root@,
                pwd@,
                session_id@,
                SessionRecord::Message { message: message@, timestamp_ms: now },
            ),
    {
        self.append_record(
            session_id,
            pwd,
            SessionRecord::Message { message: message.copy(), timestamp_ms: now },
        )
    }

    /// The record for the usage of a session, and the file to append it to.
    pub fn append_usage(&self, session_id: &str, pwd: &str, usage: &Usage, now: u64) -> (out:
        Result<(String, SessionRecord), SessionError>)
        ensures
            appended(
                out,
                self.root@,
                pwd@,
                session_id@,
                SessionRecord::Usage { usage: *usage, timestamp_ms: now },
            ),
    {
        self.append_record(
            session_id,
            pwd,
            SessionRecord::Usage { usage: *usage, timestamp_ms: now },
        )
    }

    /// The record for the model that a session goes on with, and the file to
    /// append it to.
    pub fn append_model(
        &self,
        session_id: &str,
        pwd: &str,
        provider: String,
        model: String,
        reasoning_effort: ReasoningEffort,
        now: u64,
    ) -> (out: Result<(String, SessionRecord), SessionError>)
        ensures
            appended(
                out,
                self.root@,
                pwd@,
                session_id@,
                SessionRecord::Model {
                    provider: provider@,
                    model: model@,
                    reasoning_effort,
                    timestamp_ms: now,
                },
            ),
    {
        self.append_record(
            session_id,
            pwd,
            SessionRecord::Model { provider, model, reasoning_effort, timestamp_ms: now },
        )
    }
}

/// A line of a session file as it was read: the record on it, or why there is
/// none, and whether the line is complete.
pub struct ReadLine {
    pub record: Result<SessionRecord, String>,
    pub complete: bool,
}

/// The view of a [`ReadLine`].
pub struct ReadLineView {
    pub record: Result<RecordView, Seq<char>>,
    pub complete: bool,
}

/// The view of what was read of a record.
pub open spec fn read_view(record: Result<SessionRecord, String>) -> Result<
    RecordView,
    Seq<char>,
> {
    match record {
        Ok(record) => Ok(record@),
        Err(reason) => Err(reason@),
    }
}

impl View for ReadLine {
    type V = ReadLineView;

    open spec fn view(&self) -> ReadLineView {
        ReadLineView { record: read_view(self.record), complete: self.complete }
    }
}

/// The views of the lines of a file.
pub open spec fn line_views(lines: Seq<ReadLine>) -> Seq<ReadLineView> {
    lines.map_values(|l: ReadLine| l@)
}

/// The session that a header opens, or why it is refused. `header_pwd` is the
/// header's directory in normal form, or why there is none.
pub open spec fn opened(
    header: Result<RecordView, Seq<char>>,
    path: Seq<char>,
    expected_id: Seq<char>,
    header_pwd: Result<Seq<char>, SessionError<Seq<char>>>,
    normalized_pwd: Seq<char>,
) -> Result<SessionView, SessionError<Seq<char>>> {
    match header {
        Err(reason) => Err(SessionError::InvalidHeader { path, reason }),
        Ok(
            SessionRecord::Session {
                id,
                version,
                pwd,
                provider,
                model,
                thinking_level,
                created_at_ms,
                updated_at_ms,
            },
        ) => if version > SESSION_SCHEMA_VERSION {
            Err(
                SessionError::UnsupportedVersion {
                    version,
                    supported: SESSION_SCHEMA_VERSION,
                    path,
                },
            )
        } else if id != expected_id {
            Err(
                SessionError::InvalidHeader {
                    path,
                    reason: "header id "@ + debug_text(id) + " does not match requested id "@
                        + debug_text(expected_id),
                },
            )
        } else {
            match header_pwd {
                Err(error) => Err(error),
                Ok(found) => if found != normalized_pwd {
                    Err(
                        SessionError::InvalidHeader {
                            path,
                            reason: "header pwd "@ + path_debug_text(pwd)
                                + " does not match requested pwd "@ + path_debug_text(
                                normalized_pwd,
                            ),
                        },
                    )
                } else {
                    Ok(
                        SessionView {
                            id,
                            version,
                            pwd,
                            provider,
                            model,
                            thinking_level,
                            messages: Seq::empty(),
                            usage: no_usage(),
                            created_at_ms,
                            updated_at_ms: later(updated_at_ms, created_at_ms),
                        },
                    )
                },
            }
        },
        Ok(_) => Err(
            SessionError::InvalidHeader { path, reason: "first record is not a session header"@ },
        ),
    }
}

/// The view of a session that was read, or of why there is none.
pub open spec fn session_result(result: Result<Session, SessionError>) -> Result<
    SessionView,
    SessionError<Seq<char>>,
> {
    match result {
        Ok(session) => Ok(session@),
        Err(error) => Err(error@),
    }
}

/// The view of a directory in normal form, or of why there is none.
pub open spec fn pwd_result(result: Result<String, SessionError>) -> Result<
    Seq<char>,
    SessionError<Seq<char>>,
> {
    match result {
        Ok(pwd) => Ok(pwd@),
        Err(error) => Err(error@),
    }
}

fn mismatch(what: &str, found: &str, between: &str, wanted: &str) -> (out: String)
    ensures
        out@ == what@ + found@ + between@ + wanted@,
{
    let mut out = joined3(what, found, between);
    out.push_str(wanted);
    out
}

/// Open a session by the first record of its file. The header has to be of a
/// known version, and to belong to the session and the directory that were
/// asked for.
pub fn parse_header(
    header: Result<SessionRecord, String>,
    path: &str,
    expected_id: &str,
    header_pwd: Result<String, SessionError>,
    normalized_pwd: &str,
) -> (out: Result<Session, SessionError>)
    ensures
        session_result(out) == opened(
            read_view(header),
            path@,
            expected_id@,
            pwd_result(header_pwd),
            normalized_pwd@,
        ),
{
    let record = match header {
        Ok(record) => record,
        Err(reason) => {
            return Err(SessionError::InvalidHeader { path: owned(path), reason });
        },
    };
    match record {
        SessionRecord::Session {
            id,
            version,
            pwd,
            provider,
            model,
            thinking_level,
            created_at_ms,
            updated_at_ms,
        } => {
            if version > SESSION_SCHEMA_VERSION {
                return Err(
                    SessionError::UnsupportedVersion {
                        version,
                        supported: SESSION_SCHEMA_VERSION,
                        path: owned(path),
                    },
                );
            }
            if !same(id.as_str(), expected_id) {
                let reason = mismatch(
                    "header id ",
                    quoted(id.as_str()).as_str(),
                    " does not match requested id ",
                    quoted(expected_id).as_str(),
                );
                return Err(SessionError::InvalidHeader { path: owned(path), reason });
            }
            let found = match header_pwd {
                Ok(found) => found,
                Err(error) => {
                    return Err(error);
                },
            };
            if !same(found.as_str(), normalized_pwd) {
                let reason = mismatch(
                    "header pwd ",
                    quoted_path(pwd.as_str()).as_str(),
                    " does not match requested pwd ",
                    quoted_path(normalized_pwd).as_str(),
                );
                return Err(SessionError::InvalidHeader { path: owned(path), reason });
            }
            let messages: Vec<AgentMessage> = Vec::new();
            assert(message_views(messages@) =~= Seq::empty());
            Ok(
                Session {
                    id,
                    version,
                    pwd,
                    provider,
                    model,
                    thinking_level,
                    messages,
                    usage: Usage::default(),
                    created_at_ms,
                    updated_at_ms: if updated_at_ms < created_at_ms {
                        created_at_ms
                    } else {
                        updated_at_ms
                    },
                },
            )
        },
        _ => Err(
            SessionError::InvalidHeader {
                path: owned(path),
                reason: owned("first record is not a session header"),
            },
        ),
    }
}

/// A session after the lines that follow its header. A line that
/// is not complete is passed over; a complete line that holds no record, or
/// another header, makes the file malformed.
pub open spec fn replayed(
    session: SessionView,
    lines: Seq<ReadLineView>,
    path: Seq<char>,
) -> Result<SessionView, SessionError<Seq<char>>>
    decreases lines.len(),
{
    if lines.len() == 0 {
        Ok(session)
    } else {
        let rest = lines.drop_first();
        if !lines[0].complete {
            replayed(session, rest, path)
        } else {
            match lines[0].record {
                Err(reason) => Err(SessionError::MalformedRecord { path, reason }),
                Ok(SessionRecord::Session { .. }) => Err(
                    SessionError::MalformedRecord {
                        path,
                        reason: "unexpected session header inside file"@,
                    },
                ),
                Ok(record) => replayed(recorded(session, record), rest, path),
            }
        }
    }
}

/// The session that a file holds, or why it is refused.
pub open spec fn loaded(
    lines: Seq<ReadLineView>,
    path: Seq<char>,
    expected_id: Seq<char>,
    header_pwd: Result<Seq<char>, SessionError<Seq<char>>>,
    normalized_pwd: Seq<char>,
) -> Result<SessionView, SessionError<Seq<char>>> {
    if lines.len() == 0 {
        Err(SessionError::InvalidHeader { path, reason: "file is empty"@ })
    } else {
        match opened(lines[0].record, path, expected_id, header_pwd, normalized_pwd) {
            Err(error) => Err(error),
            Ok(session) => replayed(session, lines.drop_first(), path),
        }
    }
}

/// Put a session together from the lines of its file. `header_pwd` is the
/// directory of the header in normal form, or why it has none.
pub fn get_session(
    lines: Vec<ReadLine>,
    path: &str,
    session_id: &str,
    header_pwd: Result<String, SessionError>,
    normalized_pwd: &str,
) -> (out: Result<Session, SessionError>)
    ensures
        session_result(out) == loaded(
            line_views(lines@),
            path@,
            session_id@,
            pwd_result(header_pwd),
            normalized_pwd@,
        ),
{
    let ghost views = line_views(lines@);
    let mut lines = lines;
    if lines.len() == 0 {
        return Err(
            SessionError::InvalidHeader { path: owned(path), reason: owned("file is empty") },
        );
    }
    let first = lines.remove(0);
    assert(line_views(lines@) =~= views.drop_first());
    let mut session = match parse_header(
        first.record,
        path,
        session_id,
        header_pwd,
        normalized_pwd,
    ) {
        Ok(session) => session,
        Err(error) => {
            return Err(error);
        },
    };
    let ghost base = session@;
    let ghost rest = line_views(lines@);
    #[verifier::loop_isolation(false)]
    while lines.len() > 0
        invariant
            replayed(session@, line_views(lines@), path@) == replayed(base, rest, path@),
        decreases lines@.len(),
    {
        let ghost before = line_views(lines@);
        let line = lines.remove(0);
        assert(line_views(lines@) =~= before.drop_first());
        if line.complete {
            match line.record {
                Err(reason) => {
                    return Err(SessionError::MalformedRecord { path: owned(path), reason });
                },
                Ok(SessionRecord::Session { .. }) => {
                    return Err(
                        SessionError::MalformedRecord {
                            path: owned(path),
                            reason: owned("unexpected session header inside file"),
                        },
                    );
                },
                Ok(record) => {
                    session.record(record);
                },
            }
        }
    }
    Ok(session)
}

/// The directory that the header of a file names, where the file has one.
pub fn header_directory(lines: &Vec<ReadLine>) -> (out: Option<String>)
    ensures
        match out {
            Some(pwd) => {
                &&& lines@.len() > 0
                &&& lines@[0]@.record is Ok
                &&& lines@[0]@.record->Ok_0 is Session
                &&& lines@[0]@.record->Ok_0->Session_pwd == pwd@
            },
            None => lines@.len() == 0 || lines@[0]@.record is Err || !(
            lines@[0]@.record->Ok_0 is Session),
        },
{
    if lines.len() == 0 {
        return None;
    }
    match &lines[0].record {
        Ok(SessionRecord::Session { pwd, .. }) => Some(pwd.clone()),
        _ => None,
    }
}

/// Lines that hold these records, all of them complete.
pub open spec fn lines_with(records: Seq<RecordView>) -> Seq<ReadLineView> {
    records.map_values(|r: RecordView| ReadLineView { record: Ok(r), complete: true })
}

/// A session after a sequence of records.
pub open spec fn after_records(
    session: SessionView,
    records: Seq<RecordView>,
) -> SessionView
    decreases records.len(),
{
    if records.len() == 0 {
        session
    } else {
        after_records(recorded(session, records[0]), records.drop_first())
    }
}

/// The messages that a sequence of records adds, in order.
pub open spec fn messages_in(records: Seq<RecordView>) -> Seq<AgentMessageView>
    decreases records.len(),
{
    if records.len() == 0 {
        Seq::empty()
    } else {
        match records[0] {
            SessionRecord::Message { message, .. } => seq![message] + messages_in(
                records.drop_first(),
            ),
            _ => messages_in(records.drop_first()),
        }
    }
}

/// The usage after a sequence of records: the last one told, `before` where
/// none is.
pub open spec fn usage_after(before: Usage, records: Seq<RecordView>) -> Usage
    decreases records.len(),
{
    if records.len() == 0 {
        before
    } else {
        match records.last() {
            SessionRecord::Usage { usage, .. } => usage,
            _ => usage_after(before, records.drop_last()),
        }
    }
}

/// A record that is appended to a file is applied last when the file is read.
pub proof fn an_appended_record_is_applied_last(
    session: SessionView,
    records: Seq<RecordView>,
    record: RecordView,
)
    ensures
        after_records(session, records.push(record)) == recorded(
            after_records(session, records),
            record,
        ),
    decreases records.len(),
{
    if records.len() == 0 {
        let rest = records.push(record).drop_first();
        assert(rest.len() == 0);
        assert(after_records(recorded(session, record), rest) == recorded(
            session,
            record,
        ));
    } else {
        assert(records.push(record).drop_first() =~= records.drop_first().push(record));
        an_appended_record_is_applied_last(
            recorded(session, records[0]),
            records.drop_first(),
            record,
        );
    }
}

proof fn lemma_replay_of_records(
    session: SessionView,
    records: Seq<RecordView>,
    tail: Seq<ReadLineView>,
    path: Seq<char>,
)
    requires
        forall|i: int| 0 <= i < records.len() ==> !((#[trigger] records[i]) is Session),
        forall|i: int| 0 <= i < tail.len() ==> !(#[trigger] tail[i]).complete,
    ensures
        replayed(session, lines_with(records) + tail, path) == Ok::<
            SessionView,
            SessionError<Seq<char>>,
        >(after_records(session, records)),
    decreases records.len() + tail.len(),
{
    let lines = lines_with(records) + tail;
    if records.len() > 0 {
        assert(lines.drop_first() =~= lines_with(records.drop_first()) + tail);
        assert(lines[0] == (ReadLineView { record: Ok(records[0]), complete: true }));
        lemma_replay_of_records(
            recorded(session, records[0]),
            records.drop_first(),
            tail,
            path,
        );
    } else if tail.len() > 0 {
        assert(lines =~= tail);
        assert(lines.drop_first() =~= lines_with(records) + tail.drop_first());
        lemma_replay_of_records(session, records, tail.drop_first(), path);
    }
}

/// What was written of a session is what is read of it: the file that holds its
/// header and then records gives back the session with those records applied,
/// in order, whatever was cut off after them.
pub proof fn a_session_is_read_back(
    session: SessionView,
    records: Seq<RecordView>,
    tail: Seq<ReadLineView>,
    path: Seq<char>,
)
    requires
        session.version <= SESSION_SCHEMA_VERSION,
        session.messages.len() == 0,
        session.usage == no_usage(),
        session.created_at_ms <= session.updated_at_ms,
        forall|i: int| 0 <= i < records.len() ==> !((#[trigger] records[i]) is Session),
        forall|i: int| 0 <= i < tail.len() ==> !(#[trigger] tail[i]).complete,
    ensures
        loaded(
            lines_with(seq![header_of(session)] + records) + tail,
            path,
            session.id,
            Ok(session.pwd),
            session.pwd,
        ) == Ok::<SessionView, SessionError<Seq<char>>>(after_records(session, records)),
{
    let lines = lines_with(seq![header_of(session)] + records) + tail;
    assert(lines[0].record == Ok::<RecordView, Seq<char>>(header_of(session)));
    assert(lines.drop_first() =~= lines_with(records) + tail);
    assert(session.messages =~= Seq::empty());
    assert(opened(lines[0].record, path, session.id, Ok(session.pwd), session.pwd) == Ok::<
        SessionView,
        SessionError<Seq<char>>,
    >(session));
    lemma_replay_of_records(session, records, tail, path);
}

/// A session that is read back has the messages that were appended to it, in
/// order, and the usage that was told last: usages replace each other and are
/// not summed.
pub proof fn replay_keeps_messages_and_the_last_usage(
    session: SessionView,
    records: Seq<RecordView>,
)
    ensures
        after_records(session, records).messages == session.messages + messages_in(records),
        after_records(session, records).usage == usage_after(session.usage, records),
        after_records(session, records).id == session.id,
        after_records(session, records).pwd == session.pwd,
        after_records(session, records).version == session.version,
        after_records(session, records).created_at_ms == session.created_at_ms,
    decreases records.len(),
{
    if records.len() == 0 {
        assert(session.messages + messages_in(records) =~= session.messages);
    } else {
        let first = records[0];
        let rest = records.drop_first();
        let next = recorded(session, first);
        replay_keeps_messages_and_the_last_usage(next, rest);
        assert(after_records(session, records).messages =~= session.messages + messages_in(
            records,
        ));
        lemma_usage_after(session.usage, records);
    }
}

proof fn lemma_usage_after(before: Usage, records: Seq<RecordView>)
    requires
        records.len() > 0,
    ensures
        usage_after(before, records) == usage_after(
            match records[0] {
                SessionRecord::Usage { usage, .. } => usage,
                _ => before,
            },
            records.drop_first(),
        ),
    decreases records.len(),
{
    reveal_with_fuel(usage_after, 2);
    let rest = records.drop_first();
    if records.len() == 1 {
        assert(records.drop_last().len() == 0);
        assert(rest.len() == 0);
        assert(records.last() == records[0]);
    } else {
        assert(rest.last() == records.last());
        assert(rest.drop_last() =~= records.drop_last().drop_first());
        assert(records.drop_last()[0] == records[0]);
        lemma_usage_after(before, records.drop_last());
    }
}

/// A session is opened only by a header of its own: one that could be read, of a
/// version that is known, with the identifier that was asked for, and for the
/// directory that was asked for. Anything else is refused.
pub proof fn only_its_own_header_opens_a_session(
    header: Result<RecordView, Seq<char>>,
    path: Seq<char>,
    expected_id: Seq<char>,
    header_pwd: Result<Seq<char>, SessionError<Seq<char>>>,
    normalized_pwd: Seq<char>,
)
    ensures
        opened(header, path, expected_id, header_pwd, normalized_pwd) is Ok <==> {
            &&& header is Ok
            &&& header->Ok_0 is Session
            &&& header->Ok_0->Session_version <= 1
            &&& header->Ok_0->Session_id == expected_id
            &&& header_pwd == Ok::<Seq<char>, SessionError<Seq<char>>>(normalized_pwd)
        },
        opened(header, path, expected_id, header_pwd, normalized_pwd) is Ok ==> {
            let session = opened(
                header,
                path,
                expected_id,
                header_pwd,
                normalized_pwd,
            )->Ok_0;
            &&& session.id == expected_id
            &&& session.pwd == header->Ok_0->Session_pwd
            &&& session.provider == header->Ok_0->Session_provider
            &&& session.model == header->Ok_0->Session_model
            &&& session.thinking_level == header->Ok_0->Session_thinking_level
            &&& session.created_at_ms == header->Ok_0->Session_created_at_ms
            &&& session.messages.len() == 0
        },
{
}

/// A complete line that holds no record, or another header, makes a session
/// unreadable wherever it stands; a line that was cut off does not.
pub proof fn malformed_lines_are_not_passed_over(
    session: SessionView,
    records: Seq<RecordView>,
    line: ReadLineView,
    rest: Seq<ReadLineView>,
    path: Seq<char>,
)
    requires
        forall|i: int| 0 <= i < records.len() ==> !((#[trigger] records[i]) is Session),
        line.complete,
        line.record is Err || line.record->Ok_0 is Session,
    ensures
        replayed(session, lines_with(records) + seq![line] + rest, path) is Err,
    decreases records.len(),
{
    let lines = lines_with(records) + seq![line] + rest;
    if records.len() > 0 {
        assert(lines[0] == (ReadLineView { record: Ok(records[0]), complete: true }));
        assert(lines.drop_first() =~= lines_with(records.drop_first()) + seq![line] + rest);
        let left = records.drop_first();
        assert forall|i: int| 0 <= i < left.len() implies !((#[trigger] left[i]) is Session) by {
            assert(left[i] == records[i + 1]);
        }
        malformed_lines_are_not_passed_over(recorded(session, records[0]), left, line, rest, path);
    } else {
        assert(lines[0] == line);
    }
}

/// Two sessions of a project are kept in different files, below the directory for
/// the sessions.
pub proof fn sessions_have_their_own_files(
    root: Seq<char>,
    pwd: Seq<char>,
    id: Seq<char>,
    other: Seq<char>,
)
    requires
        valid_id(id),
        valid_id(other),
    ensures
        session_file(root, pwd, id) == session_file(root, pwd, other) ==> id == other,
        root.is_prefix_of(session_file(root, pwd, id)),
{
    reveal_strlit(".jsonl");
    keys_are_sixteen_hex_digits(pwd);
    let dir = under(root, key_of(pwd));
    let name = id + ".jsonl"@;
    assert(is_hex_digit(key_of(pwd)[0]));
    assert(id_char(id[0]));
    assert(id_char(other[0]));
    assert(name[0] == id[0]);
    assert((other + ".jsonl"@)[0] == other[0]);
    names_stand_under_their_base(root, key_of(pwd));
    names_stand_under_their_base(dir, name);
    let whole = session_file(root, pwd, id);
    assert(root =~= dir.take(root.len() as int));
    assert(dir =~= whole.take(dir.len() as int));
    assert(root =~= whole.take(root.len() as int));
    if session_file(root, pwd, id) == session_file(root, pwd, other) {
        assert(name == other + ".jsonl"@);
        assert(id =~= name.take(name.len() - 6));
        assert(other =~= (other + ".jsonl"@).take(name.len() - 6));
    }
}

/// A line that was cut off changes nothing, wherever it stands.
pub proof fn cut_off_lines_change_nothing(
    session: SessionView,
    before: Seq<ReadLineView>,
    line: ReadLineView,
    after: Seq<ReadLineView>,
    path: Seq<char>,
)
    requires
        !line.complete,
    ensures
        replayed(session, before + seq![line] + after, path) == replayed(
            session,
            before + after,
            path,
        ),
    decreases before.len(),
{
    let with = before + seq![line] + after;
    let without = before + after;
    if before.len() == 0 {
        assert(with[0] == line);
        assert(with.drop_first() =~= without);
    } else {
        assert(with[0] == before[0] && without[0] == before[0]);
        assert(with.drop_first() =~= before.drop_first() + seq![line] + after);
        assert(without.drop_first() =~= before.drop_first() + after);
        cut_off_lines_change_nothing(session, before.drop_first(), line, after, path);
        if before[0].record is Ok {
            cut_off_lines_change_nothing(
                recorded(session, before[0].record->Ok_0),
                before.drop_first(),
                line,
                after,
                path,
            );
        }
    }
}

/// A session that is opened was updated no earlier than it was created, and no earlier
/// than its header says.
pub proof fn opened_sessions_are_no_older_than_they_say(
    header: Result<RecordView, Seq<char>>,
    path: Seq<char>,
    expected_id: Seq<char>,
    header_pwd: Result<Seq<char>, SessionError<Seq<char>>>,
    normalized_pwd: Seq<char>,
)
    requires
        opened(header, path, expected_id, header_pwd, normalized_pwd) is Ok,
    ensures
        ({
            let session = opened(
                header,
                path,
                expected_id,
                header_pwd,
                normalized_pwd,
            )->Ok_0;
            let created = header->Ok_0->Session_created_at_ms;
            let updated = header->Ok_0->Session_updated_at_ms;
            &&& session.created_at_ms == created
            &&& session.updated_at_ms >= created
            &&& session.updated_at_ms >= updated
            &&& session.updated_at_ms == created || session.updated_at_ms == updated
            &&& session.version == header->Ok_0->Session_version
            &&& session.usage == no_usage()
        }),
{
}

/// An identifier is one to sixty-four letters, digits and dashes: any such text is one,
/// and none holds a dot or a separator.
pub proof fn identifiers_are_short_and_plain(id: Seq<char>, i: int)
    ensures
        id.len() == 0 || id.len() > 64 ==> !valid_id(id),
        valid_id(id) && 0 <= i < id.len() ==> id[i] != '/' && id[i] != '.' && id[i] != '\\',
        1 <= id.len() <= 64 && (forall|k: int|
            0 <= k < id.len() ==> 'a' <= #[trigger] id[k] <= 'z' || 'A' <= id[k] <= 'Z' || '0'
                <= id[k] <= '9' || id[k] == '-') ==> valid_id(id),
{
    if valid_id(id) && 0 <= i < id.len() {
        assert(id_char(id[i]));
    }
}

} // verus!
