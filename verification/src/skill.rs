//! Skills that a model may read, and the system prompt that tells it of them.
use crate::text::{chars_of, join, join_all, joined3, opt_text, owned, texts};
use vstd::prelude::*;

verus! {

/// Instructions for one kind of task, kept in a file of their own.
#[derive(Debug, Clone)]
pub struct Skill<S = String> {
    pub name: S,
    pub description: S,
    pub instructions: S,
    pub disable_model_invocation: bool,
    pub file_path: Option<S>,
}

impl View for Skill {
    type V = Skill<Seq<char>>;

    open spec fn view(&self) -> Skill<Seq<char>> {
        Skill {
            name: self.name@,
            description: self.description@,
            instructions: self.instructions@,
            disable_model_invocation: self.disable_model_invocation,
            file_path: opt_text(self.file_path),
        }
    }
}

/// The views of a list of skills.
pub open spec fn skill_views(skills: Seq<Skill>) -> Seq<Skill<Seq<char>>> {
    skills.map_values(|s: Skill| s@)
}

/// What stands for `c` in XML text.
pub open spec fn escaped_char(c: char) -> Seq<char> {
    if c == '&' {
        "&amp;"@
    } else if c == '<' {
        "&lt;"@
    } else if c == '>' {
        "&gt;"@
    } else if c == '"' {
        "&quot;"@
    } else if c == '\'' {
        "&apos;"@
    } else {
        seq![c]
    }
}

/// What stands for `s` in XML text.
pub open spec fn escaped(s: Seq<char>) -> Seq<char>
    decreases s.len(),
{
    if s.len() == 0 {
        Seq::empty()
    } else {
        escaped(s.drop_last()) + escaped_char(s.last())
    }
}

/// Escaped text holds no bracket and no quote, so it can neither end nor open
/// an element or an attribute.
pub proof fn escaped_text_has_no_markup(s: Seq<char>)
    ensures
        forall|i: int|
            0 <= i < escaped(s).len() ==> {
                let c = #[trigger] escaped(s)[i];
                c != '<' && c != '>' && c != '"' && c != '\''
            },
    decreases s.len(),
{
    if s.len() > 0 {
        escaped_text_has_no_markup(s.drop_last());
        reveal_strlit("&amp;");
        reveal_strlit("&lt;");
        reveal_strlit("&gt;");
        reveal_strlit("&quot;");
        reveal_strlit("&apos;");
        let head = escaped(s.drop_last());
        let tail = escaped_char(s.last());
        assert forall|i: int| 0 <= i < escaped(s).len() implies {
            let c = #[trigger] escaped(s)[i];
            c != '<' && c != '>' && c != '"' && c != '\''
        } by {
            if i < head.len() {
                assert(escaped(s)[i] == head[i]);
            } else {
                assert(escaped(s)[i] == tail[i - head.len()]);
            }
        }
    }
}

/// The lines that stand before the list of skills.
pub open spec fn intro_lines() -> Seq<Seq<char>> {
    seq![
        "The following skills provide specialized instructions for specific tasks."@,
        "Read the full skill file when the task matches its description."@,
        "When a skill file references a relative path, resolve it against the skill directory and use that absolute path in tool commands."@,
        ""@,
        "<available_skills>"@,
    ]
}

/// The lines for one skill.
pub open spec fn skill_lines(skill: Skill<Seq<char>>) -> Seq<Seq<char>> {
    let head = seq![
        "  <skill>"@,
        "    <name>"@ + escaped(skill.name) + "</name>"@,
        "    <description>"@ + escaped(skill.description) + "</description>"@,
    ];
    let place = match skill.file_path {
        Some(path) => seq!["    <location>"@ + escaped(path) + "</location>"@],
        None => Seq::empty(),
    };
    head + place + seq!["  </skill>"@]
}

/// The skills that a model is told of.
pub open spec fn visible_skills(skills: Seq<Skill<Seq<char>>>) -> Seq<Skill<Seq<char>>> {
    skills.filter(|s: Skill<Seq<char>>| !s.disable_model_invocation)
}

/// The lines for a list of skills, in order.
pub open spec fn list_lines(skills: Seq<Skill<Seq<char>>>) -> Seq<Seq<char>>
    decreases skills.len(),
{
    if skills.len() == 0 {
        Seq::empty()
    } else {
        list_lines(skills.drop_last()) + skill_lines(skills.last())
    }
}

/// What a model is told of its skills: nothing where it may see none.
pub open spec fn skills_text(skills: Seq<Skill<Seq<char>>>) -> Seq<char> {
    let visible = visible_skills(skills);
    if visible.len() == 0 {
        Seq::empty()
    } else {
        join(intro_lines() + list_lines(visible) + seq!["</available_skills>"@], "\n"@)
    }
}

/// The system prompt: the given one, then the skills, as far as each is there.
pub open spec fn system_text(
    prompt: Option<Seq<char>>,
    skills: Seq<Skill<Seq<char>>>,
) -> Option<Seq<char>> {
    let own = prompt.unwrap_or(Seq::empty());
    let listed = skills_text(skills);
    if own.len() > 0 && listed.len() > 0 {
        Some(own + "\n\n"@ + listed)
    } else if own.len() > 0 {
        Some(own)
    } else if listed.len() > 0 {
        Some(listed)
    } else {
        None
    }
}

fn escape_xml(value: &str) -> (out: String)
    ensures
        out@ == escaped(value@),
{
    let chars = chars_of(value);
    let mut out = String::new();
    let mut i: usize = 0;
    while i < chars.len()
        invariant
            i <= chars@.len(),
            out@ == escaped(chars@.take(i as int)),
        decreases chars@.len() - i,
    {
        assert(chars@.take(i as int + 1).drop_last() =~= chars@.take(i as int));
        let c: char = chars[i];
        if c == '&' {
            out.push_str("&amp;");
        } else if c == '<' {
            out.push_str("&lt;");
        } else if c == '>' {
            out.push_str("&gt;");
        } else if c == '"' {
            out.push_str("&quot;");
        } else if c == '\'' {
            out.push_str("&apos;");
        } else {
            let ghost before = out@;
            out.push(c);
            assert(before.push(c) =~= before + seq![c]);
        }
        i += 1;
    }
    assert(chars@.take(i as int) =~= chars@);
    out
}

fn push_skill(lines: &mut Vec<String>, skill: &Skill)
    ensures
        texts(final(lines)@) == texts(old(lines)@) + skill_lines(skill@),
{
    let ghost before = texts(lines@);
    lines.push(owned("  <skill>"));
    lines.push(joined3("    <name>", escape_xml(skill.name.as_str()).as_str(), "</name>"));
    lines.push(
        joined3(
            "    <description>",
            escape_xml(skill.description.as_str()).as_str(),
            "</description>",
        ),
    );
    if let Some(path) = &skill.file_path {
        lines.push(joined3("    <location>", escape_xml(path.as_str()).as_str(), "</location>"));
    }
    lines.push(owned("  </skill>"));
    assert(texts(lines@) =~= before + skill_lines(skill@));
}

/// What a model is told of its skills: nothing where it may see none.
pub fn format_skills_xml(skills: &[Skill]) -> (out: String)
    ensures
        out@ == skills_text(skill_views(skills@)),
{
    let ghost views = skill_views(skills@);
    let mut lines: Vec<String> = Vec::new();
    lines.push(
        owned("The following skills provide specialized instructions for specific tasks."),
    );
    lines.push(owned("Read the full skill file when the task matches its description."));
    lines.push(
        owned(
            "When a skill file references a relative path, resolve it against the skill directory and use that absolute path in tool commands.",
        ),
    );
    lines.push(owned(""));
    lines.push(owned("<available_skills>"));
    assert(texts(lines@) =~= intro_lines());
    let mut any: bool = false;
    let mut i: usize = 0;
    proof {
        assert(views.take(0) =~= Seq::empty());
        assert(visible_skills(views.take(0)) =~= Seq::empty());
        assert(intro_lines() + list_lines(Seq::empty()) =~= intro_lines());
    }
    while i < skills.len()
        invariant
            i <= skills@.len(),
            views == skill_views(skills@),
            any == (visible_skills(views.take(i as int)).len() > 0),
            texts(lines@) == intro_lines() + list_lines(visible_skills(views.take(i as int))),
        decreases skills@.len() - i,
    {
        proof {
            let shown = |s: Skill<Seq<char>>| !s.disable_model_invocation;
            let seen = views.take(i as int);
            let view = views[i as int];
            assert(views.take(i as int + 1) =~= seen.push(view));
            seen.lemma_filter_push(view, shown);
            let visible = visible_skills(seen);
            if !view.disable_model_invocation {
                assert(visible.push(view).drop_last() =~= visible);
                assert((intro_lines() + list_lines(visible)) + skill_lines(view) =~= intro_lines()
                    + (list_lines(visible) + skill_lines(view)));
            }
        }
        if !skills[i].disable_model_invocation {
            any = true;
            push_skill(&mut lines, &skills[i]);
        }
        i += 1;
    }
    assert(views.take(i as int) =~= views);
    if !any {
        String::new()
    } else {
        let ghost before = texts(lines@);
        lines.push(owned("</available_skills>"));
        assert(texts(lines@) =~= before + seq!["</available_skills>"@]);
        join_all(&lines, "\n")
    }
}

/// The system prompt: the given one, then the skills, as far as each is there.
pub fn build_system_prompt(prompt: Option<&str>, skills: &[Skill]) -> (out: Option<String>)
    ensures
        opt_text(out) == system_text(
            match prompt {
                Some(p) => Some(p@),
                None => None,
            },
            skill_views(skills@),
        ),
{
    let listed = format_skills_xml(skills);
    let own = match prompt {
        Some(text) => owned(text),
        None => String::new(),
    };
    if !own.as_str().is_empty() && !listed.as_str().is_empty() {
        Some(joined3(own.as_str(), "\n\n", listed.as_str()))
    } else if !own.as_str().is_empty() {
        Some(own)
    } else if !listed.as_str().is_empty() {
        Some(listed)
    } else {
        None
    }
}

proof fn lemma_escaped_of_both(a: Seq<char>, b: Seq<char>)
    ensures
        escaped(a + b) == escaped(a) + escaped(b),
    decreases b.len(),
{
    if b.len() == 0 {
        assert(a + b =~= a);
        assert(escaped(a) + escaped(b) =~= escaped(a));
    } else {
        lemma_escaped_of_both(a, b.drop_last());
        assert((a + b).drop_last() =~= a + b.drop_last());
        assert(escaped(a + b) =~= escaped(a) + escaped(b));
    }
}

proof fn lemma_escaped_first(s: Seq<char>)
    requires
        s.len() > 0,
    ensures
        escaped(s) == escaped_char(s[0]) + escaped(s.drop_first()),
{
    let one = seq![s[0]];
    assert(s =~= one + s.drop_first());
    lemma_escaped_of_both(one, s.drop_first());
    reveal_with_fuel(escaped, 2);
    assert(one.drop_last().len() == 0);
    assert(escaped(one) =~= escaped_char(s[0]));
}

proof fn lemma_codes_differ(a: char, b: char, s: Seq<char>, t: Seq<char>)
    requires
        escaped_char(a) + s == escaped_char(b) + t,
    ensures
        a == b,
        s == t,
{
    reveal_strlit("&amp;");
    reveal_strlit("&lt;");
    reveal_strlit("&gt;");
    reveal_strlit("&quot;");
    reveal_strlit("&apos;");
    let x = escaped_char(a) + s;
    let y = escaped_char(b) + t;
    assert(x[0] == escaped_char(a)[0]);
    assert(y[0] == escaped_char(b)[0]);
    assert(escaped_char(a).len() > 1 ==> x[1] == escaped_char(a)[1] && x[2] == escaped_char(a)[2]);
    assert(escaped_char(b).len() > 1 ==> y[1] == escaped_char(b)[1] && y[2] == escaped_char(b)[2]);
    assert(a == b);
    assert(x.skip(escaped_char(a).len() as int) =~= s);
    assert(y.skip(escaped_char(b).len() as int) =~= t);
}

/// No two texts are escaped to the same, so nothing of a text is lost; and a text
/// without markup stays as it is.
pub proof fn escaping_loses_nothing(a: Seq<char>, b: Seq<char>)
    ensures
        escaped(a) == escaped(b) ==> a == b,
        (forall|i: int|
            0 <= i < a.len() ==> #[trigger] a[i] != '&' && a[i] != '<' && a[i] != '>' && a[i] != '"'
                && a[i] != '\'') ==> escaped(a) == a,
    decreases a.len(),
{
    reveal_strlit("&amp;");
    reveal_strlit("&lt;");
    reveal_strlit("&gt;");
    reveal_strlit("&quot;");
    reveal_strlit("&apos;");
    if a.len() > 0 {
        lemma_escaped_first(a);
        let rest = a.drop_first();
        if escaped(a) == escaped(b) {
            if b.len() == 0 {
                assert(escaped(b).len() == 0);
                assert(escaped(a).len() > 0);
            } else {
                lemma_escaped_first(b);
                lemma_codes_differ(a[0], b[0], escaped(rest), escaped(b.drop_first()));
                escaping_loses_nothing(rest, b.drop_first());
                assert(a =~= seq![a[0]] + rest);
                assert(b =~= seq![b[0]] + b.drop_first());
            }
        }
        if forall|i: int|
            0 <= i < a.len() ==> #[trigger] a[i] != '&' && a[i] != '<' && a[i] != '>' && a[i] != '"'
                && a[i] != '\'' {
            assert forall|i: int| 0 <= i < rest.len() implies #[trigger] rest[i] != '&' && rest[i]
                != '<' && rest[i] != '>' && rest[i] != '"' && rest[i] != '\'' by {
                assert(rest[i] == a[i + 1]);
            }
            escaping_loses_nothing(rest, rest);
            assert(a[0] != '&');
            assert(escaped(a) =~= a);
        }
    } else if escaped(a) == escaped(b) && b.len() > 0 {
        lemma_escaped_first(b);
        assert(escaped(b).len() > 0);
    } else {
        assert(escaped(a) =~= a);
        assert(b.len() == 0 ==> a =~= b);
    }
}

/// A skill that the model may not see changes nothing; one that it may see is listed
/// after the others, with its name, its description and, where it has one, its place.
pub proof fn visible_skills_are_listed(skills: Seq<Skill<Seq<char>>>, skill: Skill<Seq<char>>)
    ensures
        skill.disable_model_invocation ==> skills_text(skills.push(skill)) == skills_text(skills),
        !skill.disable_model_invocation ==> {
            let before = list_lines(visible_skills(skills));
            let after = list_lines(visible_skills(skills.push(skill)));
            let added = after.skip(before.len() as int);
            &&& before.is_prefix_of(after)
            &&& skills_text(skills.push(skill)) == join(
                intro_lines() + after + seq!["</available_skills>"@],
                "\n"@,
            )
            &&& added.len() == if skill.file_path is Some {
                5int
            } else {
                4
            }
            &&& added[1] == "    <name>"@ + escaped(skill.name) + "</name>"@
            &&& added[2] == "    <description>"@ + escaped(skill.description) + "</description>"@
            &&& skill.file_path is Some ==> added[3] == "    <location>"@ + escaped(
                skill.file_path->0,
            ) + "</location>"@
            &&& added[0] == "  <skill>"@
            &&& added.last() == "  </skill>"@
        },
        skills_text(Seq::empty()).len() == 0,
{
    let shown = |s: Skill<Seq<char>>| !s.disable_model_invocation;
    skills.lemma_filter_push(skill, shown);
    reveal(Seq::filter);
    assert(visible_skills(Seq::empty()).len() == 0);
    if !skill.disable_model_invocation {
        let visible = visible_skills(skills);
        assert(visible_skills(skills.push(skill)) == visible.push(skill));
        assert(visible.push(skill).drop_last() =~= visible);
        let before = list_lines(visible);
        let after = list_lines(visible.push(skill));
        assert(after == before + skill_lines(skill));
        assert(before =~= after.take(before.len() as int));
        assert(after.skip(before.len() as int) =~= skill_lines(skill));
    }
}

/// The system prompt begins with the text that was given for it and ends with what
/// is told of the skills; there is none where there is neither.
pub proof fn system_prompts_hold_both(prompt: Option<Seq<char>>, skills: Seq<Skill<Seq<char>>>)
    ensures
        ({
            let text = system_text(prompt, skills);
            let listed = skills_text(skills);
            let given = prompt is Some && prompt->0.len() > 0;
            &&& text is Some <==> given || listed.len() > 0
            &&& given ==> prompt->0.is_prefix_of(text->0)
            &&& given && listed.len() == 0 ==> text->0 == prompt->0
            &&& !given && listed.len() > 0 ==> text->0 == listed
            &&& given && listed.len() > 0 ==> text->0 == prompt->0 + "\n\n"@ + listed
        }),
{
    let text = system_text(prompt, skills);
    if prompt is Some && prompt->0.len() > 0 {
        assert(prompt->0 =~= text->0.take(prompt->0.len() as int));
    }
}

} // verus!
