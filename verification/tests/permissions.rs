//! Tool permissions and the grants that are kept.
use alan::llm::ToolCall;
use alan::permissions::{
    AlanPermissionManager, AllowAllPermissionManager, Answer, Authorization, Decision, Grant,
    GrantSet, Permission, Policy, PolicyState, ToolPolicy,
};
use alan::permissions_store::{default_permissions_path, PermissionStore};
use alan::session::dir::pwd_key;

fn call(name: &str) -> ToolCall {
    ToolCall {
        id: "call-1".into(),
        name: name.into(),
        arguments: "{}".into(),
        signature: None,
    }
}

fn shell(arguments: &str) -> ToolCall {
    ToolCall {
        id: "call-1".into(),
        name: "bash".into(),
        arguments: arguments.into(),
        signature: None,
    }
}

fn grant(command: &str, args: Option<&str>) -> Grant {
    Grant {
        command: command.into(),
        args: args.map(|args| args.into()),
    }
}

fn state_of(policy: Policy, grants: &[(&str, Option<&str>)]) -> PolicyState {
    let mut set = GrantSet::new();
    for (command, args) in grants {
        set.insert(grant(command, *args));
    }
    PolicyState {
        policy,
        grants: set,
    }
}

#[test]
fn strict_allows_only_exact_grants() {
    let state = state_of(Policy::Strict, &[("bun", Some("dev")), ("cargo", None)]);
    assert_eq!(state.decide(&shell("bun dev")), Decision::Allow);
    assert_eq!(state.decide(&shell("bun dev --host")), Decision::Ask);
    // A family grant is not consulted in strict mode.
    assert_eq!(state.decide(&shell("cargo test")), Decision::Ask);
    assert_eq!(state.decide(&shell("node -v")), Decision::Ask);
}

#[test]
fn grant_of_normalizes_whitespace_and_splits_family() {
    let of = Grant::of(&shell("  bun \t dev   --host "));
    assert_eq!(
        of,
        Grant {
            command: "bun".into(),
            args: Some("dev --host".into())
        }
    );
    // Single-word arguments: the whole string is the family.
    assert_eq!(
        Grant::of(&shell("bun")),
        Grant {
            command: "bun".into(),
            args: None
        }
    );
    assert_eq!(Grant::of(&shell("  ")), grant("", None));
    assert_eq!(Grant::of(&call("edit")), grant("edit", Some("{}")));
}

#[test]
fn slip_allows_the_family_and_free_everything() {
    let state = state_of(Policy::Slip, &[("cargo", None)]);
    assert_eq!(state.decide(&shell("cargo test")), Decision::Allow);
    assert_eq!(state.decide(&shell("bun dev")), Decision::Ask);
    let state = state_of(Policy::Free, &[]);
    assert_eq!(state.decide(&shell("bun dev --host")), Decision::Allow);
    assert_eq!(Policy::Free.name(), "free");
    assert_eq!(Policy::Slip.name(), "slip");
    assert_eq!(Policy::Strict.name(), "strict");
    assert_eq!(
        AllowAllPermissionManager.authorize(&call("x")),
        Permission::Allowed
    );
}

#[test]
fn allowed_always_persists_and_survives_reload() {
    let mut policy = ToolPolicy::new();
    let answered = policy.answer(
        Grant::of(&shell("bun dev --host")),
        Answer::AllowedAlways,
    );
    assert_eq!(answered.permission, Permission::Allowed);
    assert_eq!(
        answered.persist,
        vec![grant("bun", Some("dev --host")), grant("bun", None)]
    );

    let mut reloaded = ToolPolicy::new();
    assert_eq!(reloaded.consult(&shell("bun dev --host")), Decision::Ask);
    assert_eq!(
        reloaded.check(&shell("bun dev --host"), Ok(answered.persist)),
        Decision::Allow
    );
    assert_eq!(
        reloaded.check(&shell("bun test"), Ok(Vec::new())),
        Decision::Ask
    );
    let family = policy.answer(grant("ls", None), Answer::AllowedAlways);
    assert_eq!(family.persist, vec![grant("ls", None)]);
}

#[test]
fn allowed_session_does_not_persist() {
    let mut policy = ToolPolicy::new();
    let answered = policy.answer(Grant::of(&shell("bun dev")), Answer::AllowedSession);
    assert!(answered.persist.is_empty(), "session grants must not be kept");
    // Still allowed in memory for this policy instance.
    assert_eq!(
        policy.check(&shell("bun dev"), Ok(Vec::new())),
        Decision::Allow
    );
}

#[test]
fn an_answer_for_the_session_allows_the_family() {
    for answer in [Answer::AllowedSession, Answer::AllowedAlways] {
        let mut policy = ToolPolicy::new();
        policy.answer(Grant::of(&shell("bun dev")), answer);
        assert_eq!(policy.consult(&shell("bun test")), Decision::Ask);
        policy.set_policy(Policy::Slip);
        assert_eq!(policy.consult(&shell("bun test")), Decision::Allow);
    }
}

#[test]
fn an_allowed_call_allows_no_other() {
    for policy_kind in [Policy::Strict, Policy::Slip] {
        let mut policy = ToolPolicy::new();
        policy.set_policy(policy_kind);
        let answered = policy.answer(grant("bun", Some("dev")), Answer::Allowed);
        assert_eq!(answered.permission, Permission::Allowed);
        assert!(answered.persist.is_empty());
        assert_eq!(policy.consult(&shell("bun dev")), Decision::Allow);
        for other in ["bun", "bun test", "bun dev --host"] {
            assert_eq!(
                policy.check(&shell(other), Ok(Vec::new())),
                Decision::Ask
            );
        }
    }
}

#[test]
fn store_hit_backfills_hashset() {
    let mut policy = ToolPolicy::new();
    let kept = policy
        .answer(Grant::of(&shell("cargo test")), Answer::AllowedAlways)
        .persist;
    // Slip mode so the family grant ("cargo", any args) is consulted.
    let mut detached = ToolPolicy::new();
    detached.set_policy(Policy::Slip);
    assert_eq!(
        detached.check(&shell("cargo test"), Ok(kept)),
        Decision::Allow
    );
    assert_eq!(
        detached.check(&shell("cargo clippy"), Err("not read".into())),
        Decision::Allow
    );
}

#[test]
fn deny_and_stop_never_persist() {
    for answer in [Answer::Denied, Answer::DeniedSession, Answer::Stop] {
        let mut policy = ToolPolicy::new();
        let answered = policy.answer(Grant::of(&shell("bun dev")), answer);
        assert_eq!(answered.permission, Permission::Denied);
        assert!(answered.persist.is_empty(), "{answer:?} must keep nothing");
        assert_eq!(policy.consult(&shell("bun dev")), Decision::Ask);
    }
}

#[test]
fn grants_that_cannot_be_read_ask() {
    let mut policy = ToolPolicy::new();
    assert_eq!(
        policy.check(&shell("ls"), Err("broken".into())),
        Decision::Ask
    );
    policy.answer(Grant::of(&shell("ls")), Answer::Allowed);
    assert_eq!(
        policy.check(&shell("ls"), Err("broken".into())),
        Decision::Allow
    );
}

fn ask(manager: &mut AlanPermissionManager, call: &ToolCall) -> u64 {
    let decision = manager.policy.consult(call);
    match manager.authorize(call, false, decision) {
        Authorization::Ask(request) => {
            let id = request.id;
            assert_eq!(manager.request(&request, true), None);
            id
        }
        Authorization::Allowed => panic!("expected a request"),
    }
}

#[test]
fn respond_unblocks_authorize() {
    let mut manager = AlanPermissionManager::init(ToolPolicy::new());
    let id = ask(&mut manager, &call("bash"));
    let answered = manager.respond(id, Answer::Allowed).expect("an answer");
    assert_eq!(answered.permission, Permission::Allowed);
    assert!(manager.respond(id, Answer::Denied).is_none());
}

#[test]
fn strict_allows_after_approval() {
    let mut manager = AlanPermissionManager::init(ToolPolicy::new());
    let id = ask(&mut manager, &shell("bun dev"));
    manager.respond(id, Answer::Allowed);
    let decision = manager.policy.consult(&shell("bun dev"));
    assert!(matches!(
        manager.authorize(&shell("bun dev"), false, decision),
        Authorization::Allowed
    ));
}

#[test]
fn denied_without_ui() {
    let mut manager = AlanPermissionManager::init(ToolPolicy::new());
    match manager.authorize(&call("bash"), false, Decision::Ask) {
        Authorization::Ask(request) => assert_eq!(
            manager.request(&request, false),
            Some(Permission::Denied)
        ),
        Authorization::Allowed => panic!("expected a request"),
    }
}

#[test]
fn stale_respond_is_ignored() {
    let mut manager = AlanPermissionManager::init(ToolPolicy::new());
    let id = ask(&mut manager, &call("bash"));
    assert!(manager.respond(id + 999, Answer::Denied).is_none());
    let answered = manager.respond(id, Answer::Allowed).expect("an answer");
    assert_eq!(answered.permission, Permission::Allowed);
}

#[test]
fn stop_unblocks_authorize_with_denied() {
    let mut manager = AlanPermissionManager::init(ToolPolicy::new());
    let first = ask(&mut manager, &shell("bun dev"));
    let second = ask(&mut manager, &shell("ls"));
    assert_ne!(first, second);
    let answered = manager.respond(first, Answer::Stop).expect("an answer");
    assert_eq!(answered.permission, Permission::Denied);
    assert!(manager.respond(second, Answer::AllowedSession).is_some());
}

#[test]
fn reading_tools_are_not_asked_about() {
    let mut manager = AlanPermissionManager::init(ToolPolicy::new());
    assert!(matches!(
        manager.authorize(&call("read"), true, Decision::Ask),
        Authorization::Allowed
    ));
    assert_eq!(manager.next_id, 1);
}

#[test]
fn reinsert_is_a_noop() {
    let g = grant("bun", Some("dev"));
    let list = PermissionStore::insert(Vec::new(), &g).expect("new");
    assert_eq!(list, vec![g.clone()]);
    assert!(PermissionStore::insert(list, &g).is_none());
}

fn inserted(grants: &[Grant]) -> Vec<Grant> {
    let mut list = Vec::new();
    for grant in grants {
        list = PermissionStore::insert(list, grant).expect("new");
    }
    list
}

#[test]
fn round_trips_family_and_exact_grants() {
    let loaded =
        PermissionStore::load_all(inserted(&[grant("cargo", None), grant("bun", Some("dev"))]));
    assert_eq!(loaded.items.len(), 2);
    assert!(loaded.contains(&grant("cargo", None)));
    assert!(loaded.contains(&grant("bun", Some("dev"))));
}

#[test]
fn insert_appends_without_touching_others() {
    let loaded =
        PermissionStore::load_all(inserted(&[grant("bun", None), grant("cargo", None)]));
    assert!(loaded.contains(&grant("bun", None)));
    assert!(loaded.contains(&grant("cargo", None)));
}

#[test]
fn kept_grants_are_sorted() {
    assert_eq!(
        inserted(&[
            grant("cargo", None),
            grant("bun", Some("z")),
            grant("bun", None),
            grant("bun", Some("a"))
        ]),
        vec![
            grant("bun", None),
            grant("bun", Some("a")),
            grant("bun", Some("z")),
            grant("cargo", None)
        ]
    );
}

#[test]
fn remove_deletes_only_target() {
    let list = inserted(&[grant("bun", None), grant("cargo", None)]);
    let list = PermissionStore::remove(list, &grant("bun", None)).expect("removed");
    // Removing again reports that it was not there.
    assert!(PermissionStore::remove(list.clone(), &grant("bun", None)).is_none());
    assert_eq!(list, vec![grant("cargo", None)]);
    let twice = vec![grant("bun", None), grant("cargo", None), grant("bun", None)];
    assert_eq!(
        PermissionStore::remove(twice, &grant("bun", None)),
        Some(vec![grant("cargo", None)])
    );
}

#[test]
fn removing_last_grant_leaves_empty_allow_list() {
    let list =
        PermissionStore::remove(vec![grant("bun", None)], &grant("bun", None)).expect("removed");
    assert!(list.is_empty());
    let set = PermissionStore::load_all(vec![grant("a", None), grant("a", None)]);
    assert_eq!(set.items.len(), 1);
    assert_eq!(PermissionStore::new("p".into()).store.path, "p");
}

#[test]
fn grants_are_kept_for_each_project() {
    let file = |home: &str| format!("{home}/projects/{}/permissions.json", pwd_key("/tmp/p"));
    let (alan, home) = (Some("/alan".to_string()), Some("/home/me".to_string()));
    assert_eq!(
        default_permissions_path(&alan, &home, "/tmp/p"),
        Ok(file("/alan"))
    );
    assert_eq!(
        default_permissions_path(&None, &home, "/tmp/p"),
        Ok(file("/home/me"))
    );
    assert_eq!(
        default_permissions_path(&None, &None, "/tmp/p"),
        Err("cannot determine Alan home directory".into())
    );
}
