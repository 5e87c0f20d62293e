//! Slash commands typed into the prompt.
use crate::llm::{effort_word, names_no_effort, ReasoningEffort};
use crate::text::{
    ascii_lowercase, ascii_lowered, chars_of, is_white_space, joined, lemma_word_len, owned, same,
    split_words, string_of, texts, trim, trim_end, trim_start, trimmed, white_space, word_len,
    words,
};
use vstd::prelude::*;
use vstd::string::*;

verus! {

/// A command.
#[derive(Debug, Clone, Copy, PartialEq, Eq, Structural)]
pub enum SlashCommand {
    Login,
    Models,
    New,
    SummarizeNew,
    Plan,
    /// Fork this session from a checkpoint.
    Fork,
    /// Pick who serves a model of OpenRouter.
    ModelProviders,
    Review,
    Normal,
    Effort,
    Help,
    /// Rename the current session.
    Rename,
    /// Manage local models (add, remove, edit).
    Local,
    Quit,
}

/// All commands, in the order in which they are listed.
pub open spec fn all_commands() -> Seq<SlashCommand> {
    seq![
        SlashCommand::Login,
        SlashCommand::Models,
        SlashCommand::New,
        SlashCommand::SummarizeNew,
        SlashCommand::Plan,
        SlashCommand::Fork,
        SlashCommand::ModelProviders,
        SlashCommand::Review,
        SlashCommand::Normal,
        SlashCommand::Effort,
        SlashCommand::Help,
        SlashCommand::Rename,
        SlashCommand::Local,
        SlashCommand::Quit,
    ]
}

/// The word that stands for a command.
pub open spec fn command_word(command: SlashCommand) -> Seq<char> {
    match command {
        SlashCommand::Login => "login"@,
        SlashCommand::Models => "models"@,
        SlashCommand::New => "new"@,
        SlashCommand::SummarizeNew => "summarize-new"@,
        SlashCommand::Plan => "plan"@,
        SlashCommand::Fork => "fork"@,
        SlashCommand::ModelProviders => "model-providers"@,
        SlashCommand::Review => "review"@,
        SlashCommand::Normal => "normal"@,
        SlashCommand::Effort => "effort"@,
        SlashCommand::Help => "help"@,
        SlashCommand::Rename => "rename"@,
        SlashCommand::Local => "local"@,
        SlashCommand::Quit => "quit"@,
    }
}

/// The command that a word stands for. The one for model providers is also known
/// by the singular.
pub open spec fn command_of(word: Seq<char>) -> Option<SlashCommand> {
    if word == "login"@ {
        Some(SlashCommand::Login)
    } else if word == "models"@ {
        Some(SlashCommand::Models)
    } else if word == "new"@ {
        Some(SlashCommand::New)
    } else if word == "summarize-new"@ {
        Some(SlashCommand::SummarizeNew)
    } else if word == "plan"@ {
        Some(SlashCommand::Plan)
    } else if word == "fork"@ {
        Some(SlashCommand::Fork)
    } else if word == "model-providers"@ || word == "model-provider"@ {
        Some(SlashCommand::ModelProviders)
    } else if word == "review"@ {
        Some(SlashCommand::Review)
    } else if word == "normal"@ {
        Some(SlashCommand::Normal)
    } else if word == "effort"@ {
        Some(SlashCommand::Effort)
    } else if word == "help"@ {
        Some(SlashCommand::Help)
    } else if word == "rename"@ {
        Some(SlashCommand::Rename)
    } else if word == "local"@ {
        Some(SlashCommand::Local)
    } else if word == "quit"@ {
        Some(SlashCommand::Quit)
    } else {
        None
    }
}

/// What a command does, in a few words.
pub open spec fn description_of(command: SlashCommand) -> Seq<char> {
    match command {
        SlashCommand::Login => "sign in to a provider"@,
        SlashCommand::Models => "pick a model for this conversation"@,
        SlashCommand::New => "start a new session"@,
        SlashCommand::SummarizeNew => "summarize this session into a new one"@,
        SlashCommand::Plan => "turn on plan mode (also Shift+Tab)"@,
        SlashCommand::Review => "turn on review mode (also Shift+Tab)"@,
        SlashCommand::Normal => "turn off plan and review mode"@,
        SlashCommand::Effort => "set reasoning effort (e.g. /effort high)"@,
        SlashCommand::Fork => "fork this session from a checkpoint"@,
        SlashCommand::Help => "list the available commands"@,
        SlashCommand::ModelProviders => "pick a provider from openrouter for the selected model"@,
        SlashCommand::Rename => "rename the current session"@,
        SlashCommand::Local => "manage local models (add, remove, edit)"@,
        SlashCommand::Quit => "abort and quit"@,
    }
}

/// Text without white space but for spaces and tabs. Any other white space
/// breaks the line.
pub open spec fn single_line(text: Seq<char>) -> bool {
    forall|i: int|
        0 <= i < text.len() && white_space(#[trigger] text[i]) ==> text[i] == ' ' || text[i]
            == '\t'
}

/// What follows the slash of a command line: the whole input has to be one line
/// that begins with the slash.
pub open spec fn command_line(input: Seq<char>) -> Option<Seq<char>> {
    if input.len() > 0 && input[0] == '/' && single_line(input.skip(1)) {
        Some(input.skip(1))
    } else {
        None
    }
}

/// The command of an input; what follows its word is ignored.
pub open spec fn parsed(input: Seq<char>) -> Option<SlashCommand> {
    match command_line(input) {
        Some(line) => if words(line).len() > 0 {
            command_of(words(line)[0])
        } else {
            None
        },
        None => None,
    }
}

/// The command of an input and the text after its word, without white space
/// around it.
pub open spec fn parsed_with_args(input: Seq<char>) -> Option<(SlashCommand, Seq<char>)> {
    match command_line(input) {
        Some(line) => {
            let text = trimmed(line);
            let n = word_len(text) as int;
            match command_of(text.take(n)) {
                Some(command) => Some((command, trim_start(text.skip(n)))),
                None => None,
            }
        },
        None => None,
    }
}

/// The lines of the help text for the first `n` commands.
pub open spec fn help_lines(n: nat) -> Seq<char>
    decreases n,
{
    if n == 0 {
        Seq::empty()
    } else {
        let command = all_commands()[n - 1];
        help_lines((n - 1) as nat) + "\n- `"@ + ("/"@ + command_word(command)) + "` — "@
            + description_of(command)
    }
}

fn is_command_line(chars: &Vec<char>) -> (out: bool)
    ensures
        out == (command_line(chars@) is Some),
{
    if chars.len() == 0 || chars[0] != '/' {
        return false;
    }
    let ghost rest = chars@.skip(1);
    let mut i: usize = 1;
    while i < chars.len()
        invariant
            1 <= i <= chars@.len(),
            rest == chars@.skip(1),
            chars@[0] == '/',
            forall|k: int|
                0 <= k < i - 1 && white_space(#[trigger] rest[k]) ==> rest[k] == ' ' || rest[k]
                    == '\t',
        decreases chars@.len() - i,
    {
        let c: char = chars[i];
        assert(rest[i - 1] == c);
        if is_white_space(c) && c != ' ' && c != '\t' {
            return false;
        }
        i += 1;
    }
    true
}

impl SlashCommand {
    fn from_word(word: &str) -> (out: Option<SlashCommand>)
        ensures
            out == command_of(word@),
    {
        if same(word, "login") {
            Some(SlashCommand::Login)
        } else if same(word, "models") {
            Some(SlashCommand::Models)
        } else if same(word, "new") {
            Some(SlashCommand::New)
        } else if same(word, "summarize-new") {
            Some(SlashCommand::SummarizeNew)
        } else if same(word, "plan") {
            Some(SlashCommand::Plan)
        } else if same(word, "fork") {
            Some(SlashCommand::Fork)
        } else if same(word, "model-providers") || same(word, "model-provider") {
            Some(SlashCommand::ModelProviders)
        } else if same(word, "review") {
            Some(SlashCommand::Review)
        } else if same(word, "normal") {
            Some(SlashCommand::Normal)
        } else if same(word, "effort") {
            Some(SlashCommand::Effort)
        } else if same(word, "help") {
            Some(SlashCommand::Help)
        } else if same(word, "rename") {
            Some(SlashCommand::Rename)
        } else if same(word, "local") {
            Some(SlashCommand::Local)
        } else if same(word, "quit") {
            Some(SlashCommand::Quit)
        } else {
            None
        }
    }

    /// All commands, in the order in which they are listed.
    pub fn all() -> (out: Vec<SlashCommand>)
        ensures
            out@ == all_commands(),
    {
        let out = vec![
            SlashCommand::Login,
            SlashCommand::Models,
            SlashCommand::New,
            SlashCommand::SummarizeNew,
            SlashCommand::Plan,
            SlashCommand::Fork,
            SlashCommand::ModelProviders,
            SlashCommand::Review,
            SlashCommand::Normal,
            SlashCommand::Effort,
            SlashCommand::Help,
            SlashCommand::Rename,
            SlashCommand::Local,
            SlashCommand::Quit,
        ];
        assert(out@ =~= all_commands());
        out
    }

    /// The command of an input. A command is the whole input: a single line
    /// starting with `/`. Anything else is a prompt. Arguments are accepted and
    /// ignored.
    pub fn parse(input: &str) -> (out: Option<SlashCommand>)
        ensures
            out == parsed(input@),
    {
        let chars = chars_of(input);
        if !is_command_line(&chars) {
            return None;
        }
        let rest = string_of(&chars, 1, chars.len());
        assert(rest@ =~= input@.skip(1));
        let all = split_words(rest.as_str());
        assert(texts(all@).len() == all@.len());
        if all.len() == 0 {
            None
        } else {
            assert(texts(all@)[0] == all@[0]@);
            SlashCommand::from_word(all[0].as_str())
        }
    }

    /// Like [`parse`](Self::parse), but keeps the text after the command.
    pub fn parse_with_args(input: &str) -> (out: Option<(SlashCommand, &str)>)
        ensures
            match out {
                Some((command, args)) => parsed_with_args(input@) == Some((command, args@)),
                None => parsed_with_args(input@) is None,
            },
    {
        let chars = chars_of(input);
        if !is_command_line(&chars) {
            return None;
        }
        let ghost line = input@.skip(1);
        let mut end: usize = chars.len();
        assert(line.take(end - 1) =~= line);
        while end > 1 && is_white_space(chars[end - 1])
            invariant
                1 <= end <= chars@.len(),
                chars@ == input@,
                line == input@.skip(1),
                trim_end(line) == trim_end(line.take(end - 1)),
            decreases end,
        {
            assert(line.take(end - 1).last() == chars@[end - 1]);
            assert(line.take(end - 1).drop_last() =~= line.take(end - 2));
            end -= 1;
        }
        let ghost ended = trim_end(line);
        proof {
            if end > 1 {
                assert(line.take(end - 1).last() == chars@[end - 1]);
            }
            assert(ended == line.take(end - 1));
        }
        let mut begin: usize = 1;
        while begin < end && is_white_space(chars[begin])
            invariant
                1 <= begin <= end <= chars@.len(),
                chars@ == input@,
                line == input@.skip(1),
                ended == line.take(end - 1),
                forall|k: int| 0 <= k < begin - 1 ==> white_space(#[trigger] ended[k]),
            decreases end - begin,
        {
            assert(ended[begin - 1] == chars@[begin as int]);
            begin += 1;
        }
        let ghost text = trimmed(line);
        proof {
            crate::text::lemma_trim_start_skips(ended, begin - 1);
            crate::text::lemma_trims_commute(line);
            if begin < end {
                assert(ended.skip(begin - 1)[0] == chars@[begin as int]);
            }
            assert(text == ended.skip(begin - 1));
            assert(text =~= input@.subrange(begin as int, end as int));
        }
        let mut after: usize = begin;
        while after < end && !is_white_space(chars[after])
            invariant
                1 <= begin <= after <= end <= chars@.len(),
                chars@ == input@,
                text == input@.subrange(begin as int, end as int),
                forall|k: int| 0 <= k < after - begin ==> !white_space(#[trigger] text[k]),
            decreases end - after,
        {
            assert(text[after - begin] == chars@[after as int]);
            after += 1;
        }
        proof {
            if after < end {
                assert(text[after - begin] == chars@[after as int]);
            }
            crate::text::lemma_word_len_is(text, after - begin);
        }
        let word = string_of(&chars, begin, after);
        assert(word@ =~= text.take(after - begin));
        match SlashCommand::from_word(word.as_str()) {
            None => None,
            Some(command) => {
                let ghost tail = text.skip(after - begin);
                let mut from: usize = after;
                while from < end && is_white_space(chars[from])
                    invariant
                        1 <= begin <= after <= from <= end <= chars@.len(),
                        chars@ == input@,
                        text == input@.subrange(begin as int, end as int),
                        tail == text.skip(after - begin),
                        forall|k: int| 0 <= k < from - after ==> white_space(#[trigger] tail[k]),
                    decreases end - from,
                {
                    assert(tail[from - after] == chars@[from as int]);
                    from += 1;
                }
                proof {
                    crate::text::lemma_trim_start_skips(tail, from - after);
                    if from < end {
                        assert(tail.skip(from - after)[0] == chars@[from as int]);
                    }
                    assert(tail.skip(from - after) =~= input@.subrange(from as int, end as int));
                }
                let args = input.substring_char(from, end);
                Some((command, args))
            },
        }
    }

    /// The word that stands for the command.
    pub fn as_ref(self) -> (out: &'static str)
        ensures
            out@ == command_word(self),
    {
        match self {
            SlashCommand::Login => "login",
            SlashCommand::Models => "models",
            SlashCommand::New => "new",
            SlashCommand::SummarizeNew => "summarize-new",
            SlashCommand::Plan => "plan",
            SlashCommand::Fork => "fork",
            SlashCommand::ModelProviders => "model-providers",
            SlashCommand::Review => "review",
            SlashCommand::Normal => "normal",
            SlashCommand::Effort => "effort",
            SlashCommand::Help => "help",
            SlashCommand::Rename => "rename",
            SlashCommand::Local => "local",
            SlashCommand::Quit => "quit",
        }
    }

    /// The command as it is typed.
    pub fn name(self) -> (out: String)
        ensures
            out@ == "/"@ + command_word(self),
    {
        joined("/", self.as_ref())
    }

    /// Whether the command takes arguments. One that takes none runs as soon as
    /// it is completed; one that does is inserted, to be typed on.
    pub fn takes_args(self) -> (out: bool)
        ensures
            out == (self == SlashCommand::Effort || self == SlashCommand::ModelProviders || self
                == SlashCommand::SummarizeNew || self == SlashCommand::Rename || self
                == SlashCommand::Local),
    {
        matches!(
            self,
            SlashCommand::Effort | SlashCommand::ModelProviders | SlashCommand::SummarizeNew
                | SlashCommand::Rename | SlashCommand::Local
        )
    }

    /// What the command does, in a few words.
    pub fn description(self) -> (out: &'static str)
        ensures
            out@ == description_of(self),
    {
        match self {
            SlashCommand::Login => "sign in to a provider",
            SlashCommand::Models => "pick a model for this conversation",
            SlashCommand::New => "start a new session",
            SlashCommand::SummarizeNew => "summarize this session into a new one",
            SlashCommand::Plan => "turn on plan mode (also Shift+Tab)",
            SlashCommand::Review => "turn on review mode (also Shift+Tab)",
            SlashCommand::Normal => "turn off plan and review mode",
            SlashCommand::Effort => "set reasoning effort (e.g. /effort high)",
            SlashCommand::Fork => "fork this session from a checkpoint",
            SlashCommand::Help => "list the available commands",
            SlashCommand::ModelProviders =>
                "pick a provider from openrouter for the selected model",
            SlashCommand::Rename => "rename the current session",
            SlashCommand::Local => "manage local models (add, remove, edit)",
            SlashCommand::Quit => "abort and quit",
        }
    }

    /// The reasoning effort that an argument names, whatever the case of its
    /// letters and the white space around it.
    pub fn parse_effort(args: &str) -> (out: Option<ReasoningEffort>)
        ensures
            match out {
                Some(effort) => effort_word(effort) == ascii_lowered(trimmed(args@)),
                None => names_no_effort(ascii_lowered(trimmed(args@))),
            },
    {
        ReasoningEffort::from_word(ascii_lowercase(trim(args).as_str()).as_str())
    }

    /// Markdown that lists every command.
    pub fn help() -> (out: String)
        ensures
            out@ == "**Commands**\n"@ + help_lines(all_commands().len()),
    {
        let commands = SlashCommand::all();
        let mut text = owned("**Commands**\n");
        let mut i: usize = 0;
        assert("**Commands**\n"@ + help_lines(0) =~= "**Commands**\n"@);
        while i < commands.len()
            invariant
                i <= commands@.len(),
                commands@ == all_commands(),
                text@ == "**Commands**\n"@ + help_lines(i as nat),
            decreases commands@.len() - i,
        {
            let ghost before = text@;
            let name = commands[i].name();
            let description = commands[i].description();
            text.push_str("\n- `");
            text.push_str(name.as_str());
            text.push_str("` — ");
            text.push_str(description);
            assert(text@ =~= "**Commands**\n"@ + help_lines(i as nat + 1));
            i += 1;
        }
        text
    }
}

proof fn lemma_reveal_words()
    ensures
        "login"@ == seq!['l', 'o', 'g', 'i', 'n'],
        "models"@ == seq!['m', 'o', 'd', 'e', 'l', 's'],
        "new"@ == seq!['n', 'e', 'w'],
        "summarize-new"@ == seq!['s', 'u', 'm', 'm', 'a', 'r', 'i', 'z', 'e', '-', 'n', 'e', 'w'],
        "plan"@ == seq!['p', 'l', 'a', 'n'],
        "fork"@ == seq!['f', 'o', 'r', 'k'],
        "model-providers"@ == seq![
            'm',
            'o',
            'd',
            'e',
            'l',
            '-',
            'p',
            'r',
            'o',
            'v',
            'i',
            'd',
            'e',
            'r',
            's',
        ],
        "review"@ == seq!['r', 'e', 'v', 'i', 'e', 'w'],
        "normal"@ == seq!['n', 'o', 'r', 'm', 'a', 'l'],
        "effort"@ == seq!['e', 'f', 'f', 'o', 'r', 't'],
        "help"@ == seq!['h', 'e', 'l', 'p'],
        "rename"@ == seq!['r', 'e', 'n', 'a', 'm', 'e'],
        "local"@ == seq!['l', 'o', 'c', 'a', 'l'],
        "quit"@ == seq!['q', 'u', 'i', 't'],
        "model-provider"@.len() == 14,
{
    reveal_strlit("login");
    reveal_strlit("models");
    reveal_strlit("new");
    reveal_strlit("summarize-new");
    reveal_strlit("plan");
    reveal_strlit("fork");
    reveal_strlit("model-providers");
    reveal_strlit("review");
    reveal_strlit("normal");
    reveal_strlit("effort");
    reveal_strlit("help");
    reveal_strlit("rename");
    reveal_strlit("local");
    reveal_strlit("quit");
    reveal_strlit("model-provider");
    assert("login"@ =~= seq!['l', 'o', 'g', 'i', 'n']);
    assert("models"@ =~= seq!['m', 'o', 'd', 'e', 'l', 's']);
    assert("new"@ =~= seq!['n', 'e', 'w']);
    assert("summarize-new"@ =~= seq![
        's',
        'u',
        'm',
        'm',
        'a',
        'r',
        'i',
        'z',
        'e',
        '-',
        'n',
        'e',
        'w',
    ]);
    assert("plan"@ =~= seq!['p', 'l', 'a', 'n']);
    assert("fork"@ =~= seq!['f', 'o', 'r', 'k']);
    assert("model-providers"@ =~= seq![
        'm',
        'o',
        'd',
        'e',
        'l',
        '-',
        'p',
        'r',
        'o',
        'v',
        'i',
        'd',
        'e',
        'r',
        's',
    ]);
    assert("review"@ =~= seq!['r', 'e', 'v', 'i', 'e', 'w']);
    assert("normal"@ =~= seq!['n', 'o', 'r', 'm', 'a', 'l']);
    assert("effort"@ =~= seq!['e', 'f', 'f', 'o', 'r', 't']);
    assert("help"@ =~= seq!['h', 'e', 'l', 'p']);
    assert("rename"@ =~= seq!['r', 'e', 'n', 'a', 'm', 'e']);
    assert("local"@ =~= seq!['l', 'o', 'c', 'a', 'l']);
    assert("quit"@ =~= seq!['q', 'u', 'i', 't']);
}

/// A command's word stands for that command, is not empty and holds no white
/// space.
pub proof fn words_name_their_commands(command: SlashCommand)
    ensures
        command_of(command_word(command)) == Some(command),
        command_word(command).len() > 0,
        forall|i: int|
            0 <= i < command_word(command).len() ==> !white_space(
                #[trigger] command_word(command)[i],
            ),
{
    lemma_reveal_words();
    let word = command_word(command);
    assert(word.len() > 0);
    let n = word.len();
    assert(word == "login"@ ==> word[0] == 'l' && n == 5 && word[2] == 'g');
    assert(word == "models"@ ==> word[0] == 'm' && n == 6);
    assert(word == "new"@ ==> n == 3);
    assert(word == "summarize-new"@ ==> n == 13);
    assert(word == "plan"@ ==> word[0] == 'p');
    assert(word == "fork"@ ==> word[0] == 'f');
    assert(word == "model-providers"@ ==> n == 15);
    assert(word == "model-provider"@ ==> n == 14);
    assert(word == "review"@ ==> word[0] == 'r' && n == 6 && word[2] == 'v');
    assert(word == "normal"@ ==> word[0] == 'n' && n == 6);
    assert(word == "effort"@ ==> word[0] == 'e');
    assert(word == "help"@ ==> word[0] == 'h');
    assert(word == "rename"@ ==> word[0] == 'r' && n == 6 && word[2] == 'n');
    assert(word == "local"@ ==> word[0] == 'l' && n == 5 && word[2] == 'c');
    assert(word == "quit"@ ==> word[0] == 'q');
}

/// Every command is listed.
pub proof fn every_command_is_listed(command: SlashCommand)
    ensures
        all_commands().contains(command),
{
    let all = all_commands();
    match command {
        SlashCommand::Login => assert(all[0] == command),
        SlashCommand::Models => assert(all[1] == command),
        SlashCommand::New => assert(all[2] == command),
        SlashCommand::SummarizeNew => assert(all[3] == command),
        SlashCommand::Plan => assert(all[4] == command),
        SlashCommand::Fork => assert(all[5] == command),
        SlashCommand::ModelProviders => assert(all[6] == command),
        SlashCommand::Review => assert(all[7] == command),
        SlashCommand::Normal => assert(all[8] == command),
        SlashCommand::Effort => assert(all[9] == command),
        SlashCommand::Help => assert(all[10] == command),
        SlashCommand::Rename => assert(all[11] == command),
        SlashCommand::Local => assert(all[12] == command),
        SlashCommand::Quit => assert(all[13] == command),
    }
}

/// A word that stands for a command is that command's word, but for the singular
/// of the one for model providers.
pub proof fn commands_have_their_words(word: Seq<char>)
    ensures
        command_of(word) is Some && word != "model-provider"@ ==> command_word(
            command_of(word)->0,
        ) == word,
{
}

proof fn lemma_leading_blanks_hold_no_word(s: Seq<char>)
    ensures
        words(s) == words(trim_start(s)),
    decreases s.len(),
{
    if s.len() > 0 && white_space(s[0]) {
        lemma_leading_blanks_hold_no_word(s.drop_first());
    }
}

/// The first word of a text is the one that it begins with once it is trimmed.
proof fn lemma_first_word(s: Seq<char>)
    ensures
        trimmed(s).len() == 0 ==> words(s).len() == 0,
        trimmed(s).len() > 0 ==> words(s).len() > 0 && words(s)[0] == trimmed(s).take(
            word_len(trimmed(s)) as int,
        ),
{
    let t = trim_start(s);
    let text = trimmed(s);
    lemma_leading_blanks_hold_no_word(s);
    crate::text::lemma_trim_start_is_suffix(s);
    crate::text::lemma_trim_end_is_prefix(t);
    if t.len() > 0 {
        let m = word_len(t) as int;
        lemma_word_len(t);
        assert(!white_space(t[0]));
        assert(m > 0);
        if text.len() < m {
            assert(!white_space(t[text.len() as int]));
        }
        assert forall|i: int| 0 <= i < m implies !white_space(#[trigger] text[i]) by {
            assert(text[i] == t[i]);
        }
        if m < text.len() {
            assert(text[m] == t[m]);
        }
        crate::text::lemma_word_len_is(text, m);
        assert(text.take(m) =~= t.take(m));
        assert(words(t) =~= seq![t.take(m)] + words(t.skip(m)));
    }
}

/// Keeping the arguments makes no difference to whether an input is a command,
/// nor to which one it is.
pub proof fn arguments_do_not_change_the_command(input: Seq<char>)
    ensures
        parsed_with_args(input) is Some <==> parsed(input) is Some,
        parsed_with_args(input) is Some ==> parsed(input) == Some((parsed_with_args(input)->0).0),
{
    if let Some(line) = command_line(input) {
        lemma_first_word(line);
        lemma_reveal_words();
        let text = trimmed(line);
        if text.len() == 0 {
            assert(text.take(word_len(text) as int).len() == 0);
        }
    }
}

/// A command as it is typed, with arguments after a space, is read as that
/// command with those arguments, without the white space around them.
pub proof fn a_typed_command_is_read_back(command: SlashCommand, args: Seq<char>)
    requires
        single_line(args),
    ensures
        parsed_with_args("/"@ + command_word(command) + " "@ + args) == Some(
            (command, trimmed(args)),
        ),
{
    reveal_strlit("/");
    reveal_strlit(" ");
    let word = command_word(command);
    let input = "/"@ + word + " "@ + args;
    words_name_their_commands(command);
    let line = input.skip(1);
    assert(line =~= word.push(' ') + args);
    assert(input[0] == '/');
    assert forall|i: int| 0 <= i < line.len() && white_space(#[trigger] line[i]) implies line[i]
        == ' ' || line[i] == '\t' by {
        if i < word.len() {
            assert(line[i] == word[i]);
        } else if i > word.len() {
            assert(line[i] == args[i - word.len() - 1]);
        }
    }
    assert(line[0] == word[0]);
    assert(trim_start(line) == line);
    let m = trim_end(args).len() as int;
    crate::text::lemma_trim_end_is_prefix(args);
    let k = word.len() as int;
    if m > 0 {
        let text = word.push(' ') + args.take(m);
        assert(line.take(k + 1 + m) =~= text);
        assert forall|i: int| k + 1 + m <= i < line.len() implies white_space(
            #[trigger] line[i],
        ) by {
            assert(line[i] == args[i - k - 1]);
        }
        crate::text::lemma_trim_end_drops(line, k + 1 + m);
        assert(text.last() == args.take(m).last());
        assert(trim_end(line) == text);
        assert forall|i: int| 0 <= i < k implies !white_space(#[trigger] text[i]) by {
            assert(text[i] == word[i]);
        }
        crate::text::lemma_word_len_is(text, k);
        assert(text.take(k) =~= word);
        let tail = text.skip(k);
        assert(tail[0] == ' ');
        assert(tail.drop_first() =~= args.take(m));
        assert(trim_start(tail) == trim_start(args.take(m)));
        crate::text::lemma_trims_commute(args);
    } else {
        assert forall|i: int| k <= i < line.len() implies white_space(#[trigger] line[i]) by {
            if i > k {
                assert(line[i] == args[i - k - 1]);
            }
        }
        crate::text::lemma_trim_end_drops(line, k);
        assert(line.take(k) =~= word);
        assert(!white_space(word[k - 1]));
        assert(trim_end(line) == word);
        crate::text::lemma_word_len_is(word, k);
        assert(word.take(k) =~= word);
        assert(word.skip(k) =~= Seq::<char>::empty());
        assert(crate::text::blank(args));
        crate::text::lemma_blank_trims_to_nothing(args);
        assert(trimmed(args) =~= Seq::<char>::empty());
    }
}

/// Only a single line that begins with a slash is a command.
pub proof fn only_slash_lines_are_commands(input: Seq<char>, i: int)
    requires
        0 <= i < input.len(),
    ensures
        input[0] != '/' ==> parsed(input) is None && parsed_with_args(input) is None,
        i > 0 && input[i] == '\n' ==> parsed(input) is None && parsed_with_args(input) is None,
        parsed(Seq::empty()) is None,
{
    if i > 0 && input[i] == '\n' {
        assert(input.skip(1)[i - 1] == input[i]);
        assert(white_space('\n'));
    }
}

/// The help tells of every command: its word behind a slash and what it does.
pub proof fn help_tells_of_every_command(n: nat, i: int)
    requires
        0 <= i < n <= all_commands().len(),
    ensures
        exists|before: Seq<char>, after: Seq<char>|
            help_lines(n) == #[trigger] told_between(before, all_commands()[i], after),
    decreases n,
{
    let command = all_commands()[n - 1];
    let last = "\n- `"@ + ("/"@ + command_word(command)) + "` — "@ + description_of(command);
    let earlier = help_lines((n - 1) as nat);
    if i == n - 1 {
        assert(help_lines(n) =~= told_between(earlier + "\n- `"@, command, Seq::empty()));
    } else {
        help_tells_of_every_command((n - 1) as nat, i);
        let (before, after) = choose|before: Seq<char>, after: Seq<char>|
            earlier == #[trigger] told_between(before, all_commands()[i], after);
        assert(help_lines(n) =~= told_between(before, all_commands()[i], after + last));
    }
}

/// A text that tells of a command between other things.
pub open spec fn told_between(
    before: Seq<char>,
    command: SlashCommand,
    after: Seq<char>,
) -> Seq<char> {
    before + "/"@ + command_word(command) + "` — "@ + description_of(command) + after
}

} // verus!
