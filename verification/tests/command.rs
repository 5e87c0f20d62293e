//! Slash commands.
use alan::command::SlashCommand;
use alan::llm::ReasoningEffort;

#[test]
fn parses_known_commands_and_ignores_arguments() {
    assert_eq!(SlashCommand::parse("/login"), Some(SlashCommand::Login));
    assert_eq!(SlashCommand::parse("/help  "), Some(SlashCommand::Help));
    assert_eq!(SlashCommand::parse("/plan now"), Some(SlashCommand::Plan));
}

#[test]
fn parses_models_command_with_and_without_argument() {
    assert_eq!(SlashCommand::parse("/models"), Some(SlashCommand::Models));
    assert_eq!(
        SlashCommand::parse("/models openai/gpt-4o"),
        Some(SlashCommand::Models)
    );
}

#[test]
fn rejects_prompts_and_unknown_commands() {
    assert_eq!(SlashCommand::parse("hello"), None);
    assert_eq!(SlashCommand::parse("/logn"), None);
    assert_eq!(SlashCommand::parse(""), None);
    assert_eq!(SlashCommand::parse("/"), None);
}

#[test]
fn parses_fork_command_with_and_without_argument() {
    assert_eq!(SlashCommand::parse("/fork"), Some(SlashCommand::Fork));
    assert_eq!(SlashCommand::parse("/fork now"), Some(SlashCommand::Fork));
}

/// Otherwise everything after the break is silently discarded. A bare `\r`
/// reaches the buffer because the widget only strips a trailing one.
#[test]
fn a_line_break_of_any_kind_is_never_a_command() {
    assert_eq!(SlashCommand::parse("/plan\nand also do this"), None);
    assert_eq!(SlashCommand::parse("/plan\rand also do this"), None);
    assert_eq!(SlashCommand::parse("/plan\u{0b}and also do this"), None);
    assert_eq!(SlashCommand::parse("/help\n"), None);
}

#[test]
fn spaces_and_tabs_still_separate_arguments() {
    assert_eq!(SlashCommand::parse("/plan now"), Some(SlashCommand::Plan));
    assert_eq!(SlashCommand::parse("/plan\tnow"), Some(SlashCommand::Plan));
}

/// Keeps this in step with the prompt highlight.
#[test]
fn leading_whitespace_is_not_a_command() {
    assert_eq!(SlashCommand::parse(" /plan"), None);
    assert_eq!(SlashCommand::parse("\t/help"), None);
}

#[test]
fn parse_with_args_keeps_arguments() {
    assert_eq!(
        SlashCommand::parse_with_args("/help"),
        Some((SlashCommand::Help, ""))
    );
    assert_eq!(
        SlashCommand::parse_with_args("/plan now"),
        Some((SlashCommand::Plan, "now"))
    );
    assert_eq!(
        SlashCommand::parse_with_args("/plan"),
        Some((SlashCommand::Plan, ""))
    );
    assert_eq!(SlashCommand::parse_with_args("hello"), None);
}

/// The argument is everything after the command, verbatim — even when the
/// command takes no args (e.g. `/new`). Validation, if any, is the handler's
/// job, not the parser's; `/new foo` is accepted and the `foo` is dropped
/// by `start_new_session`.
#[test]
fn parse_with_args_keeps_the_whole_tail_for_any_command() {
    assert_eq!(
        SlashCommand::parse_with_args("/new someting jf"),
        Some((SlashCommand::New, "someting jf"))
    );
    assert_eq!(
        SlashCommand::parse_with_args("/help a b c"),
        Some((SlashCommand::Help, "a b c"))
    );
}

/// `/summarize-new` is its own command, distinct from `/new`, and its
/// argument is read by the handler via `parse_with_args`.
#[test]
fn parses_summarize_new() {
    assert_eq!(
        SlashCommand::parse("/summarize-new"),
        Some(SlashCommand::SummarizeNew)
    );
    assert_eq!(
        SlashCommand::parse_with_args("/summarize-new \"XYZ\""),
        Some((SlashCommand::SummarizeNew, "\"XYZ\""))
    );
    // Must not be confused with the unrelated `/new` command.
    assert_eq!(SlashCommand::parse("/new"), Some(SlashCommand::New));
}

#[test]
fn parses_effort_command() {
    assert_eq!(SlashCommand::parse("/effort"), Some(SlashCommand::Effort));
    assert_eq!(
        SlashCommand::parse("/effort high"),
        Some(SlashCommand::Effort)
    );
    assert_eq!(
        SlashCommand::parse_with_args("/effort medium"),
        Some((SlashCommand::Effort, "medium"))
    );
    assert_eq!(
        SlashCommand::parse_with_args("/effort"),
        Some((SlashCommand::Effort, ""))
    );
}

#[test]
fn parse_effort_accepts_every_level_and_none() {
    assert_eq!(
        SlashCommand::parse_effort("none"),
        Some(ReasoningEffort::Off)
    );
    assert_eq!(
        SlashCommand::parse_effort("minimal"),
        Some(ReasoningEffort::Minimal)
    );
    assert_eq!(
        SlashCommand::parse_effort("low"),
        Some(ReasoningEffort::Low)
    );
    assert_eq!(
        SlashCommand::parse_effort("medium"),
        Some(ReasoningEffort::Medium)
    );
    assert_eq!(
        SlashCommand::parse_effort("high"),
        Some(ReasoningEffort::High)
    );
    assert_eq!(
        SlashCommand::parse_effort("xhigh"),
        Some(ReasoningEffort::XHigh)
    );
    assert_eq!(
        SlashCommand::parse_effort("max"),
        Some(ReasoningEffort::Max)
    );
}

#[test]
fn parse_effort_is_case_insensitive_and_trims_whitespace() {
    assert_eq!(
        SlashCommand::parse_effort("  High  "),
        Some(ReasoningEffort::High)
    );
    assert_eq!(
        SlashCommand::parse_effort("NONE"),
        Some(ReasoningEffort::Off)
    );
}

#[test]
fn parse_effort_rejects_unknown_values() {
    assert_eq!(SlashCommand::parse_effort(""), None);
    assert_eq!(SlashCommand::parse_effort("ultra"), None);
    assert_eq!(SlashCommand::parse_effort("high low"), None);
}

#[test]
fn takes_args_classifies_commands() {
    // Zero-argument commands.
    assert!(!SlashCommand::Login.takes_args());
    assert!(!SlashCommand::Models.takes_args());
    assert!(!SlashCommand::New.takes_args());
    assert!(!SlashCommand::Fork.takes_args());
    assert!(!SlashCommand::Plan.takes_args());
    assert!(!SlashCommand::Review.takes_args());
    assert!(!SlashCommand::Normal.takes_args());
    assert!(!SlashCommand::Help.takes_args());
    // Argument-taking commands.
    assert!(SlashCommand::Local.takes_args());
    assert!(SlashCommand::Effort.takes_args());
    assert!(SlashCommand::ModelProviders.takes_args());
    assert!(SlashCommand::SummarizeNew.takes_args());
    assert!(SlashCommand::Rename.takes_args());
}

#[test]
fn parses_local_command() {
    assert_eq!(SlashCommand::parse("/local"), Some(SlashCommand::Local));
}

#[test]
fn parses_local_subcommands() {
    assert_eq!(
        SlashCommand::parse_with_args("/local add"),
        Some((SlashCommand::Local, "add"))
    );
    assert_eq!(
        SlashCommand::parse_with_args("/local remove"),
        Some((SlashCommand::Local, "remove"))
    );
    assert_eq!(
        SlashCommand::parse_with_args("/local edit"),
        Some((SlashCommand::Local, "edit"))
    );
}

#[test]
fn parses_local_with_empty_args() {
    assert_eq!(
        SlashCommand::parse_with_args("/local"),
        Some((SlashCommand::Local, ""))
    );
}

#[test]
fn every_command_is_read_from_its_own_name() {
    for command in SlashCommand::all() {
        assert_eq!(SlashCommand::parse(&command.name()), Some(command));
        let typed = format!("{}  some args \t", command.name());
        assert_eq!(SlashCommand::parse_with_args(&typed), Some((command, "some args")));
    }
}

#[test]
fn both_readings_agree_on_the_command() {
    for (input, expected) in [
        ("/ plan", Some((SlashCommand::Plan, ""))),
        ("/ \tplan  a  b ", Some((SlashCommand::Plan, "a  b"))),
        ("/", None),
        ("/  ", None),
        ("/planner", None),
        ("/plan\nnow", None),
    ] {
        assert_eq!(SlashCommand::parse_with_args(input), expected);
        assert_eq!(
            SlashCommand::parse(input),
            expected.map(|(command, _)| command)
        );
    }
}

#[test]
fn help_lists_every_command_once_in_order() {
    let help = SlashCommand::help();
    assert!(help.starts_with("**Commands**\n\n- `/login` — sign in to a provider\n- `/models`"));
    assert!(help.ends_with("- `/quit` — abort and quit"));
    assert_eq!(help.lines().count(), 2 + SlashCommand::all().len());
}

#[test]
fn effort_words_name_their_efforts() {
    for effort in [
        ReasoningEffort::Auto,
        ReasoningEffort::Off,
        ReasoningEffort::Minimal,
        ReasoningEffort::Low,
        ReasoningEffort::Medium,
        ReasoningEffort::High,
        ReasoningEffort::XHigh,
        ReasoningEffort::Max,
    ] {
        assert_eq!(ReasoningEffort::from_word(effort.as_str()), Some(effort));
    }
}

#[test]
fn the_command_for_model_providers_has_two_words() {
    for input in ["/model-provider deepseek", "/model-providers deepseek"] {
        assert_eq!(
            SlashCommand::parse_with_args(input),
            Some((SlashCommand::ModelProviders, "deepseek"))
        );
        assert_eq!(
            SlashCommand::parse(input),
            Some(SlashCommand::ModelProviders)
        );
    }
    assert_eq!(SlashCommand::ModelProviders.name(), "/model-providers");
}
