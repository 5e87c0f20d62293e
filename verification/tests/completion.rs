//! Completion: tokens, ranking, backends and the path popup.
use alan::command::SlashCommand;
use alan::completion::command_backend::CommandCompleterBackend;
use alan::completion::commands::Commands;
use alan::completion::controller::{
    resolve_relative_dir, Accepted, CompletionController, ScanFailure, ScanReply,
};
use alan::completion::matcher::rank_all;
use alan::completion::path_backend::PathCompleterBackend;
use alan::completion::paths::{Paths, ScanOutcome};
use alan::completion::scan::{
    completion_error, is_skipped_name, relative_path, scan_continues, scan_depth, scan_dir,
    scan_dir_with, DirEntry, CANDIDATE_LIMIT, MAX_INDEXED_PATHS, SCAN_LIMIT, VISIT_LIMIT,
};
use alan::completion::token::at;
use alan::completion::{
    Accept, Backend, CommandsContext, Completer, CompletionBackendV2, CompletionContext,
    CompletionItem, CompletionRequest, CompletionResult, CompletionStatus, PathsContext,
};
use alan::controller::Poll;
use alan::matcher::match_all;

// Tokens

#[test]
fn a_token_is_split_at_its_trigger() {
    let token = at("explain @mai", 12).unwrap();

    assert_eq!(token.trigger, '@');
    // The `@` at byte 8 is outside the range, so it survives replacement.
    assert_eq!(token.range, 9..12);
}

#[test]
fn the_whole_token_is_taken_from_inside_it() {
    assert_eq!(at("@foo", 3).unwrap().range, 1..4);
}

#[test]
fn a_lone_trigger_is_still_a_token() {
    let token = at("@", 1).unwrap();

    assert_eq!(token.trigger, '@');
    assert_eq!(token.range, 1..1);
}

#[test]
fn there_is_no_token_in_empty_space_or_before_one() {
    assert!(at("", 0).is_none());
    // The cursor is before the `@`, so it is not inside the token yet.
    assert!(at("abc @src", 4).is_none());
}

#[test]
fn a_cursor_off_a_char_boundary_does_not_panic() {
    // `@é` is 3 bytes: byte 2 lands inside the `é`, byte 99 past the end.
    for cursor in [2, 99] {
        assert_eq!(at("@é", cursor).unwrap().trigger, '@');
    }
}

#[test]
fn a_multibyte_trigger_is_excluded_by_its_own_width() {
    let token = at("émai", 4).unwrap();

    assert_eq!(token.trigger, 'é');
    assert_eq!(token.range, 2..5);
}

#[test]
fn a_token_ends_at_any_white_space() {
    let token = at("a @b\u{2003}c", 4).unwrap();
    assert_eq!(token.trigger, '@');
    assert_eq!(token.range, 3..4);
    assert_eq!(at("@😀x y", 3).unwrap().range, 1..6);
}

// Ranking

fn owned(candidates: &[&str]) -> Vec<String> {
    candidates.iter().map(|c| c.to_string()).collect()
}

fn ranked(pattern: &str, candidates: &[&str]) -> Vec<String> {
    let candidates = owned(candidates);
    rank_all(pattern, &candidates)
        .into_iter()
        .map(|index| candidates[index].clone())
        .collect()
}

fn matched(pattern: &str, candidates: &[&str]) -> Vec<String> {
    let candidates = owned(candidates);
    match_all(pattern, &candidates)
        .into_iter()
        .map(|index| candidates[index].clone())
        .collect()
}

#[test]
fn matcher_empty_pattern_keeps_every_candidate_in_order() {
    assert_eq!(ranked("", &["b", "a", "c"]), ["b", "a", "c"]);
    assert_eq!(matched("", &["b", "a", "c"]), ["b", "a", "c"]);
}

#[test]
fn matcher_drops_candidates_that_do_not_contain_the_pattern() {
    assert_eq!(ranked("zz", &["alpha", "beta"]), Vec::<String>::new());
    assert_eq!(matched("zz", &["alpha", "beta"]), Vec::<String>::new());
}

#[test]
fn ranks_exact_then_prefix_then_name_then_anywhere() {
    let candidates = ["x/help", "helper", "help", "unhelpful"];
    assert_eq!(
        ranked("help", &candidates),
        ["help", "helper", "x/help", "unhelpful"]
    );
}

#[test]
fn ranks_exact_then_prefix_then_segment_then_substring() {
    let candidates = ["x/help", "helper", "help", "unhelpful"];
    assert_eq!(
        matched("help", &candidates),
        ["help", "helper", "x/help", "unhelpful"]
    );
}

#[test]
fn matcher_match_kind_outranks_any_tie_break() {
    let long_segment = format!("nested/{}", "a".repeat(300));
    let candidates = ["ba", long_segment.as_str()];
    assert_eq!(ranked("a", &candidates), [long_segment.as_str(), "ba"]);
    assert_eq!(matched("a", &candidates), [long_segment.as_str(), "ba"]);
}

#[test]
fn tie_breaks_on_length_then_position() {
    let candidates = ["crates/x/main.rs", "b/main_helper.rs", "a/main.rs"];
    assert_eq!(
        ranked("main", &candidates),
        ["a/main.rs", "b/main_helper.rs", "crates/x/main.rs"]
    );
}

#[test]
fn tie_breaks_on_position_then_length() {
    let candidates = ["crates/x/main.rs", "b/main_helper.rs", "a/main.rs"];
    assert_eq!(
        matched("main", &candidates),
        ["a/main.rs", "b/main_helper.rs", "crates/x/main.rs"]
    );
}

#[test]
fn matcher_ignores_ascii_case() {
    assert_eq!(ranked("HeLp", &["/help"]), ["/help"]);
    assert_eq!(matched("HeLp", &["/help"]), ["/help"]);
}

#[test]
fn pattern_segments_may_skip_directories() {
    let candidates = ["crates/alan/src/main.rs", "crates/agent/src/lib.rs"];

    assert_eq!(
        ranked("crates/main.rs", &candidates),
        ["crates/alan/src/main.rs"]
    );
    assert_eq!(
        ranked("alan/main", &candidates),
        ["crates/alan/src/main.rs"]
    );
}

#[test]
fn pattern_segments_must_appear_in_order() {
    let candidates = ["crates/alan/src/main.rs"];

    assert_eq!(ranked("main/crates", &candidates), Vec::<String>::new());
}

#[test]
fn the_last_pattern_part_ranks_against_the_name() {
    let candidates = ["crates/llm/src/lib.rs", "crates/agent/src/skill.rs"];

    assert_eq!(
        ranked("src/s", &candidates),
        ["crates/agent/src/skill.rs", "crates/llm/src/lib.rs"]
    );
}

#[test]
fn equally_good_names_are_ordered_by_path_length() {
    let candidates = [
        "crates/llm/src/apis/chat_completions/sse.rs",
        "crates/alan/src/views/selection.rs",
        "crates/agent/src/skill.rs",
    ];

    assert_eq!(
        ranked("src/s", &candidates),
        [
            "crates/agent/src/skill.rs",
            "crates/alan/src/views/selection.rs",
            "crates/llm/src/apis/chat_completions/sse.rs",
        ]
    );
}

#[test]
fn a_name_match_outranks_the_same_text_in_the_directory_path() {
    let candidates = ["crates/tools/src/fs.rs", "crates/tools/src/tool.rs"];

    assert_eq!(
        ranked("tool", &candidates),
        ["crates/tools/src/tool.rs", "crates/tools/src/fs.rs"]
    );
}

#[test]
fn a_directory_matches_on_its_own_name() {
    let candidates = ["crates/tools/", "crates/tools/src/args.rs"];

    assert_eq!(
        ranked("tools", &candidates),
        ["crates/tools/", "crates/tools/src/args.rs"]
    );
}

#[test]
fn a_pattern_of_slashes_alone_matches_nothing() {
    assert_eq!(ranked("//", &["a/b"]), Vec::<String>::new());
    assert_eq!(matched("/", &["a/b"]), ["a/b"]);
}

#[test]
fn equal_matches_keep_their_order() {
    assert_eq!(rank_all("x", &owned(&["xa", "xb", "xc"])), [0, 1, 2]);
    assert_eq!(match_all("x", &owned(&["xb", "xa"])), [0, 1]);
}

// Backends

fn command_request(pattern: &str) -> CompletionRequest {
    CompletionRequest {
        trigger: '/',
        pattern: pattern.to_owned(),
        range: 1..1 + pattern.len(),
        row: 0,
    }
}

fn all_commands() -> CompletionContext {
    CompletionContext::Commands(CommandsContext {
        commands: SlashCommand::all(),
    })
}

#[test]
fn command_backend_a_lone_slash_lists_every_command() {
    let backend = CommandCompleterBackend;
    let result = backend
        .complete(&command_request(""), &all_commands())
        .unwrap();

    assert_eq!(result.items.len(), SlashCommand::all().len());
}

#[test]
fn command_backend_a_pattern_narrows_to_the_matching_commands() {
    let backend = CommandCompleterBackend;
    let result = backend
        .complete(&command_request("he"), &all_commands())
        .unwrap();

    assert_eq!(result.items.len(), 1);
    assert_eq!(result.items[0].replacement, "help");
}

#[test]
fn command_backend_an_item_is_displayed_with_its_description() {
    let backend = CommandCompleterBackend;
    let result = backend
        .complete(&command_request("help"), &all_commands())
        .unwrap();

    assert_eq!(
        result.items[0].display,
        format!("/help — {}", SlashCommand::Help.description())
    );
}

#[test]
fn command_backend_a_slash_inside_the_line_is_not_a_command() {
    let backend = CommandCompleterBackend;
    let mut request = command_request("usr");
    request.range = 8..12;
    request.row = 0;

    assert!(backend.complete(&request, &all_commands()).is_none());
}

#[test]
fn command_backend_a_slash_opening_a_later_line_is_not_a_command() {
    let backend = CommandCompleterBackend;
    let mut request = command_request("he");
    request.row = 1;

    assert!(backend.complete(&request, &all_commands()).is_none());
}

#[test]
fn command_backend_accepting_replaces_the_name_and_keeps_the_slash() {
    let backend = CommandCompleterBackend;
    let result = backend
        .complete(&command_request("he"), &all_commands())
        .unwrap();

    assert_eq!(result.items[0].replacement, "help");
    assert_eq!(result.range, 1..3);
    assert_eq!(result.items[0].accept, Accept::Complete);
}

#[test]
fn command_backend_a_mismatched_context_yields_no_completion() {
    let backend = CommandCompleterBackend;
    let context = CompletionContext::Paths(PathsContext {
        paths: Vec::new(),
        status: CompletionStatus::Ready,
    });

    assert!(backend.complete(&command_request(""), &context).is_none());
}

/// What the popup offers for a line, as the editor asks for it.
fn offered(line: &str, cursor: usize, row: usize) -> Option<CompletionResult> {
    let token = at(line, cursor)?;
    let commands = Commands::default();
    if token.trigger != commands.trigger() {
        return None;
    }
    let pattern = line[token.range.clone()].to_owned();
    commands.complete(&CompletionRequest {
        trigger: token.trigger,
        pattern,
        range: token.range,
        row,
    })
}

#[test]
fn commands_a_lone_slash_lists_every_command() {
    let result = offered("/", 1, 0).unwrap();
    assert_eq!(result.items.len(), SlashCommand::all().len());
}

#[test]
fn commands_a_pattern_narrows_to_the_matching_commands() {
    let result = offered("/he", 3, 0).unwrap();
    assert_eq!(result.items.len(), 1);
    assert_eq!(result.items[0].replacement, "help");
}

#[test]
fn commands_an_item_is_displayed_with_its_description() {
    let result = offered("/help", 5, 0).unwrap();
    assert_eq!(
        result.items[0].display,
        format!("/help — {}", SlashCommand::Help.description())
    );
}

#[test]
fn commands_a_slash_inside_the_line_is_not_a_command() {
    assert!(offered("explain /usr", 12, 0).is_none());
}

#[test]
fn commands_a_slash_opening_a_later_line_is_not_a_command() {
    assert!(offered("/he", 3, 1).is_none());
}

#[test]
fn commands_accepting_replaces_the_name_and_keeps_the_slash() {
    let result = offered("/he", 3, 0).unwrap();
    assert_eq!(result.items[0].replacement, "help");
    assert_eq!(result.range, 1..3);
    assert_eq!(
        result.items[0].accept,
        Accept::Complete,
        "a command is the whole input"
    );
}

fn path_request(pattern: &str) -> CompletionRequest {
    CompletionRequest {
        trigger: '@',
        pattern: pattern.to_owned(),
        range: 1..1 + pattern.len(),
        row: 0,
    }
}

fn paths_context(paths: &[&str]) -> CompletionContext {
    CompletionContext::Paths(PathsContext {
        paths: owned(paths),
        status: CompletionStatus::Ready,
    })
}

#[test]
fn a_lone_trigger_lists_paths_from_the_context() {
    let backend = PathCompleterBackend;
    let context = paths_context(&["src/main.rs", "docs/"]);

    let result = backend.complete(&path_request(""), &context).unwrap();

    assert_eq!(result.status, CompletionStatus::Ready);
    // An empty pattern keeps the context's own order.
    assert_eq!(
        result.items.iter().map(|i| &i.display).collect::<Vec<_>>(),
        ["src/main.rs", "docs/"]
    );
    assert_eq!(result.items[0].accept, Accept::Insert);
}

#[test]
fn a_pattern_narrows_the_context_paths() {
    let backend = PathCompleterBackend;
    let context = paths_context(&["src/main.rs", "src/lib.rs"]);

    let result = backend.complete(&path_request("mai"), &context).unwrap();

    assert_eq!(result.items.len(), 1);
    assert_eq!(result.items[0].replacement, "src/main.rs");
}

#[test]
fn path_backend_a_mismatched_context_yields_no_completion() {
    let backend = PathCompleterBackend;
    let context = CompletionContext::Commands(CommandsContext::default());

    assert!(backend.complete(&path_request(""), &context).is_none());
}

#[test]
fn no_more_is_offered_than_is_shown() {
    let many: Vec<String> = (0..150).map(|i| format!("file{i:03}")).collect();
    let context = CompletionContext::Paths(PathsContext {
        paths: many,
        status: CompletionStatus::Loading,
    });
    let result = PathCompleterBackend
        .complete(&path_request(""), &context)
        .unwrap();
    assert_eq!(result.items.len(), 100);
    assert_eq!(result.status, CompletionStatus::Loading);
    assert_eq!(result.items[99].display, "file099");
}

#[test]
fn a_completer_hands_each_request_to_its_backend() {
    let mut completer = Completer::new()
        .with_backend(
            Backend::Commands(CommandCompleterBackend),
            CompletionContext::Commands(CommandsContext::default()),
        )
        .with_backend(Backend::Paths(PathCompleterBackend), paths_context(&["a"]));

    assert!(completer
        .complete(command_request("he"))
        .unwrap()
        .items
        .is_empty());
    completer.set_context('/', all_commands());
    assert_eq!(completer.complete(command_request("he")).unwrap().items.len(), 1);
    assert_eq!(
        completer.complete(path_request("")).unwrap().items,
        [CompletionItem {
            display: "a".into(),
            replacement: "a".into(),
            accept: Accept::Insert
        }]
    );
    let mut other = path_request("");
    other.trigger = '#';
    assert!(completer.complete(other).is_none());
}

#[test]
fn the_handed_range_is_what_gets_replaced() {
    let mut paths = Paths::new(".".into());
    paths.index = vec!["src/main.rs".into()];
    paths.status = CompletionStatus::Ready;
    let result = paths
        .complete(&CompletionRequest {
            trigger: '@',
            pattern: "mai".into(),
            range: 9..12,
            row: 0,
        })
        .unwrap();

    assert_eq!(result.range, 9..12);
    assert_eq!(result.items[0].replacement, "src/main.rs");
}

// The path index

#[test]
fn refresh_leaves_a_running_scan_alone() {
    let mut paths = Paths::new(".".into());
    assert!(paths.refresh(true));
    for _ in 0..5 {
        assert!(!paths.refresh(true), "a second scan was asked for");
    }
}

#[test]
fn refresh_keeps_serving_the_previous_index() {
    let mut paths = Paths::new(".".into());
    paths.index = vec!["src/main.rs".into()];
    paths.status = CompletionStatus::Ready;

    assert!(paths.refresh(true));

    assert_eq!(paths.index, ["src/main.rs"]);
    assert_eq!(paths.status, CompletionStatus::Ready);
}

#[test]
fn poll_installs_a_delivered_index_once() {
    let mut paths = Paths::new(".".into());
    paths.refresh(true);

    assert_eq!(paths.poll(ScanOutcome::Pending), Poll::Idle);
    assert_eq!(
        paths.poll(ScanOutcome::Found(vec!["fresh.txt".to_owned()])),
        Poll::Changed
    );
    assert_eq!(paths.index, ["fresh.txt"]);
    assert_eq!(
        paths.poll(ScanOutcome::Found(vec!["late.txt".to_owned()])),
        Poll::Idle
    );
    assert_eq!(paths.index, ["fresh.txt"]);
}

#[test]
fn a_missing_root_shows_a_minimal_message() {
    let mut paths = Paths::new("nope".into());
    paths.refresh(true);
    assert_eq!(
        paths.poll(ScanOutcome::Failed {
            not_found: true,
            message: "No such file or directory (os error 2)".into()
        }),
        Poll::Changed
    );
    assert_eq!(
        paths.status,
        CompletionStatus::Error("directory not found".into())
    );
    assert_eq!(completion_error(false, "denied".into()), "denied");
}

#[test]
fn a_panicked_scan_does_not_wedge_the_guard() {
    let mut paths = Paths::new(".".into());
    paths.refresh(true);
    assert_eq!(paths.poll(ScanOutcome::Lost), Poll::Idle);
    assert!(paths.refresh(true), "a new scan may be started");
    assert!(!Paths::new(".".into()).refresh(false));
}

fn entry(path: &str, is_dir: bool) -> DirEntry {
    DirEntry {
        path: path.into(),
        is_dir,
    }
}

#[test]
fn the_index_sorts_dirs_first_and_shallow_first() {
    let index = scan_dir(vec![
        entry("zeta.txt", false),
        entry("src/a", true),
        entry("src", true),
        entry("alpha.txt", false),
        entry("ab", true),
        entry("ab-c", true),
        entry("src/b.rs", false),
    ]);
    let paths: Vec<_> = index.iter().map(|p| p.path.as_str()).collect();
    assert_eq!(
        paths,
        ["ab-c/", "ab/", "src/", "alpha.txt", "zeta.txt", "src/a/", "src/b.rs"]
    );
}

#[test]
fn the_index_is_bounded() {
    let found: Vec<_> = (0..MAX_INDEXED_PATHS + 5)
        .map(|i| entry(&format!("f{i:05}"), false))
        .collect();
    let index = scan_dir(found);
    assert_eq!(index.len(), MAX_INDEXED_PATHS);
    assert_eq!(index[MAX_INDEXED_PATHS - 1].path, "f09999");
}

#[test]
fn candidates_are_sorted_and_bounded() {
    let sorted = scan_dir_with(vec![
        entry("b/x", false),
        entry("zeta.txt", false),
        entry("alpha.txt", false),
        entry("src", true),
    ]);
    assert_eq!(
        sorted,
        vec![
            entry("src", true),
            entry("alpha.txt", false),
            entry("zeta.txt", false),
            entry("b/x", false)
        ]
    );
    let many: Vec<_> = (0..CANDIDATE_LIMIT + 1)
        .map(|i| entry(&format!("f{i:05}"), false))
        .collect();
    assert_eq!(scan_dir_with(many).len(), CANDIDATE_LIMIT);
}

#[test]
fn scans_skip_junk_and_stop_in_time() {
    assert!(is_skipped_name(".git"));
    assert!(is_skipped_name("target"));
    assert!(is_skipped_name("node_modules"));
    assert!(!is_skipped_name("src"));
    assert!(scan_continues(0, 3, 3));
    assert!(!scan_continues(0, 4, 3));
    assert!(!scan_continues(VISIT_LIMIT, 3, 3));
    assert_eq!(scan_depth(true), 32);
    assert_eq!(scan_depth(false), 1);
    assert_eq!(relative_path("./src//views/../x.rs"), "src/views/x.rs");
}

// The popup

fn controller() -> CompletionController {
    CompletionController::with_root("/work".into())
}

/// Stands in for a scan that has delivered.
fn inject(controller: &mut CompletionController, items: Vec<DirEntry>) {
    controller.entries = items;
    controller.open = true;
    controller.state.status = CompletionStatus::Ready;
    controller.refilter();
}

fn names(controller: &CompletionController) -> Vec<String> {
    controller
        .state()
        .unwrap()
        .items
        .iter()
        .map(|e| e.path.clone())
        .collect()
}

#[test]
fn update_filters_by_prefix_case_insensitively() {
    let mut controller = controller();
    controller.update("someth", true);
    inject(
        &mut controller,
        vec![entry("Something.txt", false), entry("other.md", false)],
    );
    let state = controller.state().unwrap();
    assert_eq!(state.items.len(), 1);
    assert_eq!(state.items[0].path, "Something.txt");

    // Empty prefix shows everything again.
    controller.update("", true);
    assert_eq!(controller.state().unwrap().items.len(), 2);
}

#[test]
fn selection_clamps_when_filter_shrinks() {
    let mut controller = controller();
    inject(
        &mut controller,
        vec![entry("a.txt", false), entry("b.txt", false)],
    );
    controller.move_selection(5);
    assert_eq!(controller.state().unwrap().selected, 1);

    controller.update("b", true);
    assert_eq!(controller.state().unwrap().selected, 0);

    controller.move_selection(-5);
    assert_eq!(controller.state().unwrap().selected, 0);
}

#[test]
fn accept_file_closes_and_dir_stays_open() {
    let mut controller = controller();
    inject(
        &mut controller,
        vec![entry("src", true), entry("main.rs", false)],
    );

    let accepted = controller.accept().unwrap();
    assert_eq!(
        accepted,
        Accepted {
            replacement: "src/".into(),
            is_dir: true
        }
    );
    assert!(controller.is_open());

    controller.move_selection(1);
    let accepted = controller.accept().unwrap();
    assert_eq!(
        accepted,
        Accepted {
            replacement: "main.rs".into(),
            is_dir: false
        }
    );
    assert!(!controller.is_open());
}

#[test]
fn accept_prefixes_typed_directory_segment() {
    let mut controller = controller();
    // Token "@crates/al": directory segment "crates", prefix "al".
    controller.update("crates/al", true);
    inject(&mut controller, vec![entry("alan.rs", false)]);

    let accepted = controller.accept().unwrap();
    assert_eq!(accepted.replacement, "crates/alan.rs");
}

#[test]
fn poll_drops_stale_generations() {
    let mut controller = controller();
    controller.update("docs/", true);
    let fresh_generation = controller.generation;

    assert_eq!(
        controller.poll(Some(ScanReply {
            generation: fresh_generation - 1,
            key: "docs".into(),
            result: Ok(vec![entry("stale.txt", false)]),
        })),
        Poll::Idle
    );
    assert_eq!(
        controller.poll(Some(ScanReply {
            generation: fresh_generation,
            key: "docs".into(),
            result: Ok(vec![entry("fresh.txt", false)]),
        })),
        Poll::Changed
    );

    assert_eq!(names(&controller), vec!["fresh.txt"]);
    assert_eq!(controller.poll(None), Poll::Idle);
}

#[test]
fn poll_drops_results_for_other_directories() {
    let mut controller = controller();
    controller.update("docs/", true);
    let generation = controller.generation;
    assert_eq!(
        controller.poll(Some(ScanReply {
            generation,
            key: "src".into(),
            result: Ok(vec![entry("wrong.rs", false)]),
        })),
        Poll::Idle
    );
    assert!(controller.state().unwrap().items.is_empty());
}

#[test]
fn rejects_paths_outside_workspace() {
    assert!(resolve_relative_dir("../").is_none());
    assert!(resolve_relative_dir("../../tmp").is_none());
    assert!(resolve_relative_dir("/tmp").is_none());
    assert_eq!(resolve_relative_dir("a/./b/../c").as_deref(), Some("a/c"));

    let mut controller = controller();
    assert!(controller.update("../x", true).is_none());
    assert_eq!(
        controller.state().unwrap().status,
        CompletionStatus::Error("path is outside the workspace".into())
    );
    assert!(controller.update("linked/x", false).is_none());
    assert_eq!(
        controller.state().unwrap().status,
        CompletionStatus::Error("path is outside the workspace".into())
    );
}

#[test]
fn rescan_only_when_directory_changes() {
    let mut controller = controller();
    controller.update("src/f", true);
    let first_generation = controller.generation;

    controller.update("src/fo", true);
    assert_eq!(controller.generation, first_generation);
    // Doubled separators name the same directory.
    controller.update("src//fo", true);
    assert_eq!(controller.generation, first_generation);

    controller.update("docs/", true);
    assert_eq!(controller.generation, first_generation + 1);
}

#[test]
fn dismiss_resets_scan_dedup() {
    let mut controller = controller();
    controller.update("src/", true);
    let generation = controller.generation;

    controller.dismiss();
    controller.update("src/", true);
    assert_eq!(controller.generation, generation + 1);
}

#[test]
fn bare_token_matches_substring_of_nested_paths() {
    let mut controller = controller();
    controller.update("popup", true);
    inject(
        &mut controller,
        vec![
            entry("Cargo.toml", false),
            entry("crates/agent", true),
            entry("crates/agent/src/agent.rs", false),
            entry("crates/alan/src/views/components/popup.rs", false),
            entry("crates/alan/src/views/components/header.rs", false),
        ],
    );

    assert_eq!(
        names(&controller),
        vec!["crates/alan/src/views/components/popup.rs"]
    );
}

#[test]
fn bare_token_shows_directory_and_its_contents() {
    let mut controller = controller();
    controller.update("agent", true);
    inject(
        &mut controller,
        vec![
            entry("Cargo.toml", false),
            entry("crates/agent", true),
            entry("crates/agent/src", true),
            entry("crates/agent/src/agent.rs", false),
            entry("crates/alan/src/main.rs", false),
        ],
    );

    assert_eq!(
        names(&controller),
        vec![
            "crates/agent",
            "crates/agent/src",
            "crates/agent/src/agent.rs",
        ]
    );
}

#[test]
fn bare_token_filename_prefix_match_ranks_with_substring() {
    let mut controller = controller();
    controller.update("main", true);
    inject(
        &mut controller,
        vec![
            entry("domain.rs", false),
            entry("crates/alan/src/main.rs", false),
        ],
    );

    assert_eq!(
        names(&controller),
        vec!["domain.rs", "crates/alan/src/main.rs"]
    );
}

#[test]
fn a_scan_is_asked_for_with_its_directory() {
    let mut controller = controller();
    let request = controller.update("src/../crates/al", true).unwrap();
    assert_eq!(request.dir, "/work/crates");
    assert!(!request.recursive);
    assert_eq!(request.epoch, controller.cancel_epoch);
    let request = controller.update("al", true).unwrap();
    assert_eq!(request.dir, "/work/");
    assert!(request.recursive);
}

#[test]
fn a_failed_scan_shows_why() {
    let mut controller = controller();
    let request = controller.update("x", true).unwrap();
    assert_eq!(
        controller.poll(Some(ScanReply {
            generation: request.generation,
            key: request.key,
            result: Err(ScanFailure {
                not_found: true,
                message: "gone".into()
            }),
        })),
        Poll::Changed
    );
    assert_eq!(
        controller.state().unwrap().status,
        CompletionStatus::Error("directory not found".into())
    );
    assert!(controller.accept().is_none());
}

#[test]
fn letters_beyond_ascii_match_in_either_case() {
    let mut controller = controller();
    controller.update("ÄRGER", true);
    let many = (0..SCAN_LIMIT + 10)
        .map(|i| entry(&format!("ärger{i}"), false))
        .collect();
    inject(&mut controller, many);
    assert_eq!(controller.state().unwrap().items.len(), SCAN_LIMIT);
}

#[test]
fn case_makes_no_difference_to_the_ranking() {
    let candidates = ["Src/Main.rs", "src/lib.rs", "README.md", "é/MAIN"];
    let upper: Vec<String> = candidates.iter().map(|c| c.to_ascii_uppercase()).collect();
    let plain = owned(&candidates);
    for pattern in ["main", "src/l", "é", "md", "x", ""] {
        let ranking = rank_all(pattern, &plain);
        assert_eq!(rank_all(&pattern.to_ascii_uppercase(), &plain), ranking);
        assert_eq!(rank_all(pattern, &upper), ranking);
    }
    assert_eq!(rank_all("main", &plain), [3, 0]);
    assert_eq!(rank_all("", &plain), [0, 1, 2, 3]);
}
