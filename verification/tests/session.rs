//! Sessions: keys, lines, records and reading back.
use alan::context::AgentMessage;
use alan::error::{SessionError, StoreError};
use alan::llm::{ReasoningEffort, Usage};
use alan::path::{join_path, normalize_components};
use alan::session::dir::{fnv1a64, pwd_key};
use alan::session::manager::{
    get_session, header_directory, parse_header, validate_session_id, ReadLine, SessionManager,
};
use alan::session::record::{fresh_id, Session, SessionRecord, SESSION_SCHEMA_VERSION};
use alan::session::store::{
    create_error, line_with_newline, lock_error, open_error, private_mode, read_error,
    split_complete_lines, Failure,
};

#[test]
fn fnv1a64_matches_known_vectors_and_is_stable() {
    // Standard FNV-1a 64 test vectors.
    assert_eq!(fnv1a64(b""), 0xcbf2_9ce4_8422_2325);
    assert_eq!(fnv1a64(b"a"), 0xaf63_dc4c_8601_ec8c);
    assert_eq!(fnv1a64(b"foobar"), 0x85944171f73967e8);

    // Deterministic across repeated calls within and across runs.
    assert_eq!(fnv1a64(b"/tmp/project"), fnv1a64(b"/tmp/project"));
}

#[test]
fn pwd_key_is_hex_and_collision_free_for_distinct_paths() {
    let a = pwd_key("/tmp/a");
    let b = pwd_key("/tmp/b");

    assert_ne!(a, b);
    assert_eq!(a.len(), 16);
    assert!(a.bytes().all(|byte| byte.is_ascii_hexdigit()));
    assert_eq!(pwd_key("/tmp/a"), a, "stable per input");
    assert_eq!(pwd_key(""), "cbf29ce484222325");
}

#[test]
fn normalize_resolves_dots_and_parent_dirs_lexically() {
    assert_eq!(
        normalize_components("/tmp/./project/../project/src"),
        "/tmp/project/src"
    );
    assert_eq!(normalize_components("/tmp/./p/../p"), "/tmp/p");
    assert_eq!(normalize_components("/../a//b/"), "/a/b");
    assert_eq!(normalize_components("../a"), "a");
    assert_eq!(normalize_components("/"), "/");
}

#[test]
fn different_pwds_hash_to_different_keys() {
    assert_ne!(
        pwd_key(&normalize_components("/w/a")),
        pwd_key(&normalize_components("/w/b"))
    );
}

#[test]
fn records_go_to_the_file_of_their_session() {
    let manager = SessionManager::new("/s".into());
    let file = format!("/s/{}/abc.jsonl", pwd_key("/w"));
    let message = AgentMessage::user("hi");
    let (path, record) = manager
        .append_message("abc", "/w", &message, 7)
        .unwrap_or_else(|error| panic!("{}", error.message()));
    assert_eq!(path, file);
    assert!(matches!(
        record,
        SessionRecord::Message { message: AgentMessage::User { text, .. }, timestamp_ms: 7 }
            if text == "hi"
    ));
    let usage = Usage {
        input_tokens: 3,
        output_tokens: 4,
    };
    let (path, record) = manager
        .append_usage("abc", "/w", &usage, 8)
        .unwrap_or_else(|error| panic!("{}", error.message()));
    assert_eq!(path, file);
    assert!(matches!(record, SessionRecord::Usage { usage: kept, timestamp_ms: 8 } if kept == usage));
    let (path, record) = manager
        .append_model("abc", "/w", "p".into(), "m".into(), ReasoningEffort::High, 9)
        .unwrap_or_else(|error| panic!("{}", error.message()));
    assert_eq!(path, file);
    assert!(matches!(
        record,
        SessionRecord::Model { provider, model, reasoning_effort: ReasoningEffort::High, timestamp_ms: 9 }
            if provider == "p" && model == "m"
    ));
    assert!(manager.append_usage("../abc", "/w", &usage, 8).is_err());
}

#[test]
fn paths_are_joined_as_the_system_does() {
    assert_eq!(join_path("a", "b"), "a/b");
    assert_eq!(join_path("a/", "b"), "a/b");
    assert_eq!(join_path("", "b"), "b");
    assert_eq!(join_path("a", "/b"), "/b");
}

fn split(content: &str) -> Vec<(String, bool)> {
    split_complete_lines(content)
}

#[test]
fn split_lines_flags_truncated_tail_only() {
    let complete = split("a\nb\n");
    assert_eq!(complete, vec![("a".into(), true), ("b".into(), true)]);
    let truncated = split("a\nb");
    assert_eq!(truncated, vec![("a".into(), true), ("b".into(), false)]);
    let none = split("");
    assert!(none.is_empty());
    let only_truncated = split("abc");
    assert_eq!(only_truncated, vec![("abc".into(), false)]);
}

#[test]
fn line_ends_are_taken_off_as_lines_are() {
    assert_eq!(
        split("a\r\nb\r\n"),
        vec![("a".into(), true), ("b\r".into(), true)]
    );
    assert_eq!(split("\n"), vec![("".into(), true)]);
    assert_eq!(
        split("a\n\n"),
        vec![("a".into(), true), ("".into(), true)]
    );
    assert_eq!(
        split("\n\nb"),
        vec![("".into(), true), ("".into(), true), ("b".into(), false)]
    );
    assert_eq!(line_with_newline("x"), "x\n");
    assert_eq!(line_with_newline("x\n"), "x\n");
}

#[test]
fn written_lines_come_back() {
    let lines = ["{\"a\":1}", "", "{\"b\":\"é\"}", ""];
    let mut file = String::new();
    for line in lines {
        file.push_str(&line_with_newline(line));
    }
    let read: Vec<_> = split(&file).into_iter().map(|(line, _)| line).collect();
    assert_eq!(read, lines);
    file.push_str("{\"cut");
    assert_eq!(split(&file).len(), 5);
    assert_eq!(split(&file)[4], ("{\"cut".to_string(), false));
}

fn usage(input: u64, output: u64) -> Usage {
    Usage {
        input_tokens: input,
        output_tokens: output,
    }
}

fn new_session() -> Session {
    Session::new(
        "/tmp/project".into(),
        "openrouter".into(),
        "test-model".into(),
        None,
        5,
    )
}

fn header_is_preserved() {
    let mut session = new_session();
    session.created_at_ms = 1_000;
    session.updated_at_ms = 2_000;

    match session.header_record() {
        SessionRecord::Session {
            version: schema_version,
            id,
            pwd,
            provider,
            model,
            thinking_level,
            created_at_ms,
            updated_at_ms,
        } => {
            assert_eq!(schema_version, SESSION_SCHEMA_VERSION);
            assert_eq!(id, session.id);
            assert_eq!(pwd, "/tmp/project");
            assert_eq!(provider, "openrouter");
            assert_eq!(model, "test-model");
            assert_eq!(thinking_level, None);
            assert_eq!(created_at_ms, 1_000);
            assert_eq!(updated_at_ms, 2_000);
        }
        other => panic!("expected header record, got {other:?}"),
    }
}

#[test]
fn session_header_record_preserves_session_metadata() {
    header_is_preserved();
}

#[test]
fn record_header_record_preserves_session_metadata() {
    header_is_preserved();
}

#[test]
fn session_apply_record_appends_messages_and_replaces_usage_snapshot() {
    let mut session = new_session();

    session.record(SessionRecord::Message {
        message: AgentMessage::user("first"),
        timestamp_ms: 1_000,
    });
    session.record(SessionRecord::Message {
        message: AgentMessage::user("second"),
        timestamp_ms: 2_000,
    });
    session.record(SessionRecord::Usage {
        usage: usage(100, 50),
        timestamp_ms: 3_000,
    });
    // A later snapshot replaces the earlier one; it must not be summed.
    session.record(SessionRecord::Usage {
        usage: usage(150, 60),
        timestamp_ms: 4_000,
    });

    assert_eq!(session.messages.len(), 2);
    assert_eq!(session.usage.input_tokens, 150);
    assert_eq!(session.usage.output_tokens, 60);
    assert_eq!(session.updated_at_ms, 4_000);
}

#[test]
fn record_apply_record_appends_messages_and_replaces_usage_snapshot() {
    let mut session = new_session();

    session.record(SessionRecord::Message {
        message: AgentMessage::user("first"),
        timestamp_ms: 1_000,
    });
    session.record(SessionRecord::Usage {
        usage: usage(100, 50),
        timestamp_ms: 3_000,
    });
    session.record(SessionRecord::Usage {
        usage: usage(150, 60),
        timestamp_ms: 4_000,
    });

    assert_eq!(session.messages.len(), 1);
    assert_eq!(session.usage.input_tokens, 150);
    assert_eq!(session.usage.output_tokens, 60);
}

#[test]
fn a_model_record_changes_the_model() {
    let mut session = new_session();
    let record = SessionRecord::Model {
        provider: "zai".into(),
        model: "m2".into(),
        reasoning_effort: ReasoningEffort::High,
        timestamp_ms: 7,
    };
    assert_eq!(record.timestamp_ms(), 7);
    session.record(record);
    assert_eq!(session.provider, "zai");
    assert_eq!(session.model, "m2");
    assert_eq!(session.thinking_level, Some(ReasoningEffort::High));
    assert_eq!(session.updated_at_ms, 7);
    // An earlier record does not turn the time back.
    session.record(SessionRecord::Usage {
        usage: usage(1, 1),
        timestamp_ms: 6,
    });
    assert_eq!(session.updated_at_ms, 7);
}

#[test]
fn fresh_ids_differ_and_are_valid() {
    let a = fresh_id();
    let b = fresh_id();
    assert_ne!(a, b);
    assert_eq!(a.len(), 36);
    assert_eq!(a.as_bytes()[14], b'4');
    for at in [8, 13, 18, 23] {
        assert_eq!(a.as_bytes()[at], b'-');
    }
    assert!(a
        .bytes()
        .all(|b| b == b'-' || b.is_ascii_digit() || (b'a'..=b'f').contains(&b)));
    assert!(validate_session_id(&a).is_ok());
}

#[test]
fn ids_that_could_leave_the_directory_are_refused() {
    for id in ["", "../x", "a b", "a.b", "é", &"x".repeat(65)] {
        assert_eq!(
            validate_session_id(id),
            Err(SessionError::MalformedRecord {
                path: id.into(),
                reason: "session id must be 1-64 ascii alphanumerics or dashes".into()
            })
        );
    }
    assert!(validate_session_id(&"x".repeat(64)).is_ok());
}

fn line(record: SessionRecord) -> ReadLine {
    ReadLine {
        record: Ok(record),
        complete: true,
    }
}

fn message(text: &str) -> ReadLine {
    line(SessionRecord::Message {
        message: AgentMessage::user(text),
        timestamp_ms: 1,
    })
}

fn load(session: &Session, lines: Vec<ReadLine>) -> Result<Session, SessionError> {
    get_session(
        lines,
        "f.jsonl",
        &session.id,
        Ok(session.pwd.clone()),
        &session.pwd,
    )
}

#[test]
fn append_and_load_roundtrip() {
    let session = Session::new(
        "/tmp/project".into(),
        "openrouter".into(),
        "test-model".into(),
        Some(ReasoningEffort::High),
        1,
    );
    let loaded = load(
        &session,
        vec![
            line(session.header_record()),
            message("hello"),
            message("second"),
            line(SessionRecord::Usage {
                usage: usage(10, 5),
                timestamp_ms: 2,
            }),
            line(SessionRecord::Usage {
                usage: usage(25, 8),
                timestamp_ms: 2,
            }),
        ],
    )
    .expect("load");

    assert_eq!(loaded.id, session.id);
    assert_eq!(loaded.version, SESSION_SCHEMA_VERSION);
    assert_eq!(loaded.pwd, session.pwd);
    assert_eq!(loaded.provider, "openrouter");
    assert_eq!(loaded.model, "test-model");
    assert_eq!(loaded.thinking_level, Some(ReasoningEffort::High));
    assert_eq!(loaded.created_at_ms, session.created_at_ms);
    assert_eq!(
        loaded.messages,
        vec![AgentMessage::user("hello"), AgentMessage::user("second")]
    );
    assert_eq!(loaded.usage, usage(25, 8));
}

#[test]
fn usage_snapshots_replace_not_sum() {
    let session = new_session();
    let told = |input, output| {
        line(SessionRecord::Usage {
            usage: usage(input, output),
            timestamp_ms: 0,
        })
    };
    let loaded = load(
        &session,
        vec![line(session.header_record()), told(10, 5), told(20, 7)],
    )
    .expect("load");
    assert_eq!(loaded.usage, usage(20, 7));
}

#[test]
fn truncated_final_line_tolerated_malformed_complete_line_rejected() {
    let session = new_session();
    let cut = |complete| ReadLine {
        record: Err("EOF while parsing".into()),
        complete,
    };
    let loaded = load(
        &session,
        vec![line(session.header_record()), message("ok"), cut(false)],
    )
    .expect("truncated tail tolerated");
    assert_eq!(loaded.messages.len(), 1);

    let err = load(
        &session,
        vec![line(session.header_record()), message("ok"), cut(true)],
    )
    .expect_err("malformed complete line rejected");
    assert_eq!(
        err,
        SessionError::MalformedRecord {
            path: "f.jsonl".into(),
            reason: "EOF while parsing".into()
        }
    );
}

#[test]
fn a_header_inside_the_file_is_malformed() {
    let session = new_session();
    let err = load(
        &session,
        vec![line(session.header_record()), line(session.header_record())],
    )
    .unwrap_err();
    assert_eq!(
        err.message(),
        "malformed session record in f.jsonl: unexpected session header inside file"
    );
}

#[test]
fn load_validates_header_id_and_schema_and_pwd() {
    let mut session = new_session();
    session.id = "one".into();
    let header = |version: u16| match session.header_record() {
        SessionRecord::Session {
            id,
            pwd,
            provider,
            model,
            thinking_level,
            created_at_ms,
            updated_at_ms,
            ..
        } => SessionRecord::Session {
            id,
            version,
            pwd,
            provider,
            model,
            thinking_level,
            created_at_ms,
            updated_at_ms,
        },
        other => other,
    };

    let err = parse_header(Ok(header(99)), "p", "one", Ok("/n".into()), "/n").unwrap_err();
    assert_eq!(
        err,
        SessionError::UnsupportedVersion {
            version: 99,
            supported: 1,
            path: "p".into()
        }
    );
    assert_eq!(
        err.message(),
        "unsupported session schema version 99 in p (supported: 1)"
    );
    let err = parse_header(Ok(header(1)), "p", "other-id", Ok("/n".into()), "/n").unwrap_err();
    assert_eq!(
        err,
        SessionError::InvalidHeader {
            path: "p".into(),
            reason: "header id \"one\" does not match requested id \"other-id\"".into()
        }
    );
    let err = parse_header(Ok(header(1)), "p", "one", Ok("/elsewhere".into()), "/n").unwrap_err();
    assert_eq!(
        err,
        SessionError::InvalidHeader {
            path: "p".into(),
            reason: "header pwd \"/tmp/project\" does not match requested pwd \"/n\"".into()
        }
    );
    let err = parse_header(Ok(header(1)), "p", "one", Ok("/n".into()), "/it's").unwrap_err();
    assert_eq!(
        err,
        SessionError::InvalidHeader {
            path: "p".into(),
            reason: format!(
                "header pwd {:?} does not match requested pwd {:?}",
                std::path::Path::new("/tmp/project").display(),
                std::path::Path::new("/it's").display()
            )
        }
    );
    let gone = SessionError::Store(StoreError::CreateDir {
        dir: "d".into(),
        source: "gone".into(),
    });
    assert_eq!(
        parse_header(Ok(header(1)), "p", "one", Err(gone.clone()), "/n"),
        Err(gone)
    );
    assert_eq!(
        parse_header(Err("bad".into()), "p", "one", Ok("/n".into()), "/n")
            .unwrap_err()
            .message(),
        "invalid session header in p: bad"
    );
    let not_header = SessionRecord::Usage {
        usage: usage(0, 0),
        timestamp_ms: 0,
    };
    assert_eq!(
        parse_header(Ok(not_header), "p", "one", Ok("/n".into()), "/n")
            .unwrap_err()
            .message(),
        "invalid session header in p: first record is not a session header"
    );
    let opened = parse_header(Ok(header(0)), "p", "one", Ok("/n".into()), "/n").unwrap();
    assert_eq!(opened.version, 0);
}

#[test]
fn an_empty_file_has_no_header() {
    let session = new_session();
    assert_eq!(
        load(&session, Vec::new()).unwrap_err().message(),
        "invalid session header in f.jsonl: file is empty"
    );
    assert_eq!(header_directory(&Vec::new()), None);
    assert_eq!(
        header_directory(&vec![line(session.header_record())]).as_deref(),
        Some("/tmp/project")
    );
    assert_eq!(header_directory(&vec![message("x")]), None);
}

#[test]
fn sessions_are_kept_below_their_directory() {
    let manager = SessionManager::new("/root/sessions".into());
    let (session, dir, path) = manager.create("/tmp/p".into(), "o".into(), "m".into(), None, 9);
    assert_eq!(dir, format!("/root/sessions/{}", pwd_key("/tmp/p")));
    assert_eq!(path, format!("{dir}/{}.jsonl", session.id));
    assert_eq!(manager.session_path(&session.id, "/tmp/p"), Ok(path));
    assert!(manager.session_path("../../etc", "/tmp/p").is_err());
    assert_ne!(
        manager.session_path("x", "/tmp/a"),
        manager.session_path("x", "/tmp/b")
    );
}

#[test]
fn failures_of_the_file_system_are_told_apart() {
    let (p, s) = (|| "p".to_string(), || "why".to_string());
    assert_eq!(
        create_error(Failure::AlreadyExists, p(), s()).message(),
        "file already exists: p"
    );
    assert_eq!(
        create_error(Failure::Other, p(), s()).message(),
        "failed to create file p: why"
    );
    assert_eq!(
        open_error(Failure::NotFound, p(), s()).message(),
        "file not found: p"
    );
    assert_eq!(
        open_error(Failure::Other, p(), s()).message(),
        "failed to open file p: why"
    );
    assert_eq!(
        read_error(Failure::NotFound, p(), s()).message(),
        "file not found: p"
    );
    assert_eq!(
        read_error(Failure::WouldBlock, p(), s()).message(),
        "failed to read file p: why"
    );
    assert_eq!(
        lock_error(Failure::WouldBlock, false, p(), s()).message(),
        "file is locked by another writer: p"
    );
    assert_eq!(
        lock_error(Failure::Other, true, p(), s()),
        StoreError::Locked(p())
    );
    assert_eq!(
        lock_error(Failure::Other, false, p(), s()).message(),
        "failed to open file p: why"
    );
    assert_eq!(private_mode(true), 0o700);
    assert_eq!(private_mode(false), 0o600);
    let rest = [
        (
            StoreError::CreateDir {
                dir: p(),
                source: s(),
            },
            "failed to create directory p: why",
        ),
        (
            StoreError::WriteFile {
                path: p(),
                source: s(),
            },
            "failed to write to file p: why",
        ),
        (
            StoreError::ReadDir {
                path: p(),
                source: s(),
            },
            "failed to read directory p: why",
        ),
        (
            StoreError::SetPermissions {
                path: p(),
                source: s(),
            },
            "failed to set permissions on p: why",
        ),
    ];
    for (error, text) in rest {
        assert_eq!(error.message(), text);
    }
    assert_eq!(
        SessionError::Serialize {
            path: p(),
            source: s()
        }
        .message(),
        "failed to serialize session record for p: why"
    );
}
