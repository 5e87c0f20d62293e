//! Text helpers and skills.
use alan::prompt::{
    attach_working_directory, image_data_url, image_description, prompt_content, tail_lines,
};
use alan::context::AgentMessage;
use alan::mode::Mode;
use alan::skill::{build_system_prompt, format_skills_xml, Skill};
use alan::text::{
    ascii_lowercase, decimal_of, is_blank, is_white_space, join_all, same, split_lines,
    split_words, trim,
};

#[test]
fn white_space_is_that_of_unicode() {
    for code in 0..=0x10ffffu32 {
        if let Some(c) = char::from_u32(code) {
            assert_eq!(is_white_space(c), c.is_whitespace(), "{code:x}");
        }
    }
}

#[test]
fn text_is_trimmed_and_split_as_std_does() {
    for text in [
        "",
        " ",
        "a",
        " a b\u{2003}c\t",
        "\n\r\nx\ny\r\n",
        "line\r",
        "\u{feff} é  ",
        "a\n\nb\n",
    ] {
        assert_eq!(trim(text), text.trim());
        assert_eq!(is_blank(text), text.trim().is_empty());
        assert_eq!(
            split_words(text),
            text.split_whitespace().collect::<Vec<_>>()
        );
        assert_eq!(split_lines(text), text.lines().collect::<Vec<_>>());
        assert_eq!(ascii_lowercase(text), text.to_ascii_lowercase());
    }
    assert_eq!(ascii_lowercase("AZaz[Ä"), "azaz[Ä");
    assert!(same("ä", "ä"));
    assert!(!same("ä", "a"));
    assert_eq!(join_all(&vec!["a".into(), "b".into()], ", "), "a, b");
}

#[test]
fn numbers_are_written_in_decimal() {
    for n in [0, 7, 10, 99, 100, 12_345, u64::MAX] {
        assert_eq!(decimal_of(n), n.to_string());
    }
}

fn skill(name: &str, hidden: bool) -> Skill {
    Skill {
        name: name.into(),
        description: "does <things> & \"more\"".into(),
        instructions: "".into(),
        disable_model_invocation: hidden,
        file_path: if hidden { None } else { Some("/s/it's.md".into()) },
    }
}

#[test]
fn skills_are_listed_with_their_text_escaped() {
    let listed = format_skills_xml(&[skill("a", false), skill("b", true)]);
    assert!(listed.starts_with(
        "The following skills provide specialized instructions for specific tasks.\nRead the full"
    ));
    assert!(listed.ends_with(
        "commands.\n\n<available_skills>\n  <skill>\n    <name>a</name>\n    <description>does &lt;things&gt; &amp; &quot;more&quot;</description>\n    <location>/s/it&apos;s.md</location>\n  </skill>\n</available_skills>"
    ));
    assert_eq!(format_skills_xml(&[skill("b", true)]), "");
    assert_eq!(format_skills_xml(&[]), "");
}

#[test]
fn the_system_prompt_joins_what_there_is() {
    let listed = format_skills_xml(&[skill("a", false)]);
    assert_eq!(build_system_prompt(None, &[]), None);
    assert_eq!(build_system_prompt(Some(""), &[]), None);
    assert_eq!(build_system_prompt(Some("Be"), &[]), Some("Be".into()));
    assert_eq!(
        build_system_prompt(Some(""), &[skill("a", false)]),
        Some(listed.clone())
    );
    assert_eq!(
        build_system_prompt(Some("Be"), &[skill("a", false)]),
        Some(format!("Be\n\n{listed}"))
    );
}

#[test]
fn modes_add_to_the_prompt() {
    assert_eq!(prompt_content("hi", Mode::Normal, false), "hi");
    assert_eq!(
        prompt_content("hi", Mode::Plan, false),
        "hi\n\nPlan mode is on, do not edit any files."
    );
    let review = prompt_content("hi", Mode::Review, true);
    assert!(review.starts_with("hi\n\nReview mode is on, do not edit any files.\n\nReview the code"));
    assert!(review.ends_with("10. Future scoping"));
    assert_eq!(prompt_content("hi", Mode::Review, false), "hi");
}

#[test]
fn the_first_message_tells_the_directory() {
    let dir = Some("/work".to_string());
    let first = attach_working_directory(&dir, &Vec::new(), AgentMessage::user("hi"));
    assert_eq!(
        first,
        AgentMessage::user("hi\nCurrent project dir which you are in : /work")
    );
    let later = attach_working_directory(
        &dir,
        &vec![AgentMessage::user("x")],
        AgentMessage::user("hi"),
    );
    assert_eq!(later, AgentMessage::user("hi"));
    let none = attach_working_directory(&None, &Vec::new(), AgentMessage::user("hi"));
    assert_eq!(none, AgentMessage::user("hi"));
}

#[test]
fn only_the_last_lines_of_output_are_shown() {
    assert_eq!(tail_lines("1\n2\n3\n4\n5\n6\n7\n", 5), "3\n4\n5\n6\n7");
    assert_eq!(tail_lines("1\n2", 5), "1\n2");
    assert_eq!(tail_lines("", 5), "");
    assert_eq!(tail_lines("a\nb", 0), "");
}

#[test]
fn images_are_given_inline() {
    assert_eq!(
        image_data_url("image/png", "abc"),
        "data:image/png;base64,abc"
    );
    assert_eq!(
        image_description("image/png", "abcd"),
        "[image/png image, 4 bytes base64]"
    );
}
