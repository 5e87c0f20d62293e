//! Variables by their name.
use crate::llm::{effort_word, names_no_effort, ReasoningEffort};
use crate::settings::layers::{
    bool_word, read_var, unexpected, unexpected_value, variable_text,
};
use crate::text::{ascii_lowercase, ascii_lowered, opt_text};
use vstd::prelude::*;

verus! {

/// Read a variable with a parser. A variable that is unset or blank is no
/// opinion; one that does not parse is an error.
pub fn from_env<T, F: Fn(&str) -> Option<T>>(
    name: &str,
    value: &Option<String>,
    parse: F,
    expected: &str,
) -> (out: Result<Option<T>, String>)
    requires
        forall|s: &str| #[trigger] parse.requires((s,)),
    ensures
        match variable_text(opt_text(*value)) {
            None => out == Ok::<Option<T>, String>(None),
            Some(raw) => exists|s: &str, parsed: Option<T>|
                {
                    &&& #[trigger] parse.ensures((s,), parsed)
                    &&& s@ == raw
                    &&& match parsed {
                        Some(v) => out == Ok::<Option<T>, String>(Some(v)),
                        None => out is Err && out->Err_0@ == unexpected(name@, expected@, raw),
                    }
                },
        },
{
    let raw = match read_var(value) {
        None => {
            return Ok(None);
        },
        Some(raw) => raw,
    };
    let text = raw.as_str();
    let parsed = parse(text);
    match parsed {
        Some(v) => Ok(Some(v)),
        None => Err(unexpected_value(name, expected, raw.as_str())),
    }
}

/// The boolean that a word stands for, whatever the case of its letters.
pub fn parse_bool(raw: &str) -> (out: Option<bool>)
    ensures
        out == bool_word(ascii_lowered(raw@)),
{
    crate::settings::layers::parse_bool(ascii_lowercase(raw).as_str())
}

/// The effort that a word stands for, whatever the case of its letters.
pub fn parse_effort(raw: &str) -> (out: Option<ReasoningEffort>)
    ensures
        match out {
            Some(effort) => effort_word(effort) == ascii_lowered(raw@),
            None => names_no_effort(ascii_lowered(raw@)),
        },
{
    ReasoningEffort::from_word(ascii_lowercase(raw).as_str())
}

} // verus!
