//! The prompt builder: pure assembly of system and user prompts from
//! preset rules, prior summaries, chapter text and task kind.

use vstd::prelude::*;
use crate::types::{ChatMessage, Preset};
use crate::strutil::{is_blank, is_blank_str, join_lines, join_spec, str_eq, trim, trim_spec, views_of};

verus! {

/// One message of the wire format of a chat-completion request:
/// role and content only.
#[derive(Clone, Debug)]
pub struct WireMessage {
    pub role: String,
    pub content: String,
}

/// The rules block: one `- rule` line per rule, newline-separated.
pub open spec fn rules_text_spec(rules: Seq<Seq<char>>) -> Seq<char>
    decreases rules.len(),
{
    if rules.len() == 0 {
        Seq::empty()
    } else if rules.len() == 1 {
        "- "@ + rules[0]
    } else {
        rules_text_spec(rules.drop_last()) + "\n"@ + "- "@ + rules.last()
    }
}

pub open spec fn rule_views(rules: Seq<String>) -> Seq<Seq<char>> {
    rules.map_values(|r: String| r@)
}

/// The output-contract block appended for the `continue` task: a
/// fenced JSON object with `content` and `summary`.
pub open spec fn continue_contract_spec() -> Seq<char> {
    "\n## 输出要求\n你必须以 JSON 格式输出，包含两个字段：\n1. \"content\": 生成的正文内容\n2. \"summary\": 对生成内容的简短摘要（50-100字）\n\n示例输出格式：\n```json\n{\n  \"content\": \"生成的正文...\",\n  \"summary\": \"这段内容的摘要...\"\n}\n```\n\n只输出 JSON，不要有其他内容。\n"@
}

/// The output-contract block for every other task: free-form
/// natural-language advice.
pub open spec fn discuss_contract_spec() -> Seq<char> {
    "\n## 输出要求\n你现在是创作顾问模式。请与用户讨论创作思路、情节发展、角色塑造等问题。\n给出专业的建议和灵感启发，像一个有经验的编辑在和作者交流。\n直接用自然语言回复，不需要 JSON 格式。\n"@
}

/// The whole system prompt: the fixed template over style, point of
/// view and rules, plus the task's output contract.
pub open spec fn system_prompt_spec(style: Seq<char>, pov: Seq<char>, rules: Seq<Seq<char>>, task: Seq<char>) -> Seq<char> {
    "你是一位专业的小说写作助手。\n\n## 写作风格\n"@ + style
        + "\n\n## 叙事视角\n"@ + pov
        + "\n\n## 写作规则\n"@ + rules_text_spec(rules) + "\n"@
        + if task == "continue"@ { continue_contract_spec() } else { discuss_contract_spec() }
}

/// Renders preset style, point of view and rules into the fixed
/// template, then appends the output contract of the task kind.
pub fn build_system_prompt(preset: &Preset, task_action: &str) -> (r: String)
    ensures
        r@ == system_prompt_spec(preset.style@, preset.pov@, rule_views(preset.rules@), task_action@),
{
    let mut rules_text = String::new();
    let mut i: usize = 0;
    while i < preset.rules.len()
        invariant
            i <= preset.rules@.len(),
            rules_text@ == rules_text_spec(rule_views(preset.rules@).take(i as int)),
        decreases preset.rules@.len() - i,
    {
        if i > 0 {
            rules_text.append("\n");
        }
        rules_text.append("- ");
        rules_text.append(preset.rules[i].as_str());
        proof {
            let rv = rule_views(preset.rules@);
            assert(rv.take(i + 1).drop_last() =~= rv.take(i as int));
            assert(rv.take(i + 1).last() == preset.rules@[i as int]@);
            assert(rules_text@ =~= rules_text_spec(rv.take(i + 1)));
        }
        i = i + 1;
    }
    proof {
        assert(rule_views(preset.rules@).take(preset.rules@.len() as int) =~= rule_views(preset.rules@));
    }

    let mut out = "你是一位专业的小说写作助手。\n\n## 写作风格\n".to_owned();
    out.append(preset.style.as_str());
    out.append("\n\n## 叙事视角\n");
    out.append(preset.pov.as_str());
    out.append("\n\n## 写作规则\n");
    out.append(rules_text.as_str());
    out.append("\n");

    if str_eq(task_action, "continue") {
        out.append("\n## 输出要求\n你必须以 JSON 格式输出，包含两个字段：\n1. \"content\": 生成的正文内容\n2. \"summary\": 对生成内容的简短摘要（50-100字）\n\n示例输出格式：\n```json\n{\n  \"content\": \"生成的正文...\",\n  \"summary\": \"这段内容的摘要...\"\n}\n```\n\n只输出 JSON，不要有其他内容。\n");
    } else {
        out.append("\n## 输出要求\n你现在是创作顾问模式。请与用户讨论创作思路、情节发展、角色塑造等问题。\n给出专业的建议和灵感启发，像一个有经验的编辑在和作者交流。\n直接用自然语言回复，不需要 JSON 格式。\n");
    }
    proof {
        assert(out@ =~= system_prompt_spec(preset.style@, preset.pov@, rule_views(preset.rules@), task_action@));
    }
    out
}

/// One line of the prior-summaries section: `【title】summary`.
pub open spec fn summary_line_spec(p: (Seq<char>, Seq<char>)) -> Seq<char> {
    "【"@ + p.0 + "】"@ + p.1
}

pub open spec fn pair_views(ps: Seq<(String, String)>) -> Seq<(Seq<char>, Seq<char>)> {
    ps.map_values(|p: (String, String)| (p.0@, p.1@))
}

pub open spec fn summary_lines_spec(ss: Seq<(Seq<char>, Seq<char>)>) -> Seq<Seq<char>> {
    ss.map_values(|p: (Seq<char>, Seq<char>)| summary_line_spec(p))
}

/// The task-label line's text, mapped from the fixed vocabulary.
pub open spec fn action_text_spec(task: Seq<char>) -> Seq<char> {
    if task == "continue"@ {
        "续写正文"@
    } else if task == "discuss"@ {
        "讨论创作"@
    } else if task == "outline"@ {
        "生成大纲"@
    } else if task == "polish"@ {
        "润色修改"@
    } else {
        task
    }
}

/// The newline-joined parts of the user prompt; empty sections are
/// omitted entirely.
pub open spec fn user_parts_spec(
    ss: Seq<(Seq<char>, Seq<char>)>,
    text: Seq<char>,
    task: Seq<char>,
    instr: Seq<char>,
) -> Seq<Seq<char>> {
    (if ss.len() > 0 {
        seq!["## 前文摘要"@] + summary_lines_spec(ss) + seq![Seq::<char>::empty()]
    } else {
        Seq::empty()
    }) + (if text.len() > 0 {
        seq!["## 当前章节内容"@, text, Seq::<char>::empty()]
    } else {
        Seq::empty()
    }) + seq!["## 任务："@ + action_text_spec(task)]
        + (if !is_blank_str(instr) {
        seq!["用户说："@ + trim_spec(instr)]
    } else {
        Seq::empty()
    })
}

pub open spec fn user_prompt_spec(
    ss: Seq<(Seq<char>, Seq<char>)>,
    text: Seq<char>,
    task: Seq<char>,
    instr: Seq<char>,
) -> Seq<char> {
    join_spec(user_parts_spec(ss, text, task, instr), "\n"@)
}

/// Concatenates, in order: the prior-summaries section, the current
/// chapter content, the task-label line, and the trimmed user
/// instruction when non-blank.
pub fn build_user_prompt(
    chapter_summaries: &Vec<(String, String)>,
    current_text: &str,
    task_action: &str,
    instruction: &str,
) -> (r: String)
    ensures
        r@ == user_prompt_spec(pair_views(chapter_summaries@), current_text@, task_action@, instruction@),
{
    let ghost pv = pair_views(chapter_summaries@);
    let mut parts: Vec<String> = Vec::new();

    if chapter_summaries.len() > 0 {
        parts.push("## 前文摘要".to_owned());
        let mut i: usize = 0;
        while i < chapter_summaries.len()
            invariant
                i <= chapter_summaries@.len(),
                pv == pair_views(chapter_summaries@),
                pv.len() == chapter_summaries@.len(),
                parts@.len() == i + 1,
                parts@[0]@ == "## 前文摘要"@,
                forall|k: int| 0 <= k < i ==> #[trigger] parts@[k + 1]@ == summary_line_spec(pv[k]),
            decreases chapter_summaries@.len() - i,
        {
            let mut line = "【".to_owned();
            line.append(chapter_summaries[i].0.as_str());
            line.append("】");
            line.append(chapter_summaries[i].1.as_str());
            proof {
                assert(pv[i as int] == (chapter_summaries@[i as int].0@, chapter_summaries@[i as int].1@));
                assert(line@ == summary_line_spec(pv[i as int]));
            }
            parts.push(line);
            i = i + 1;
        }
        let ghost body = parts@;
        parts.push(crate::strutil::empty_string());
        proof {
            let want = seq!["## 前文摘要"@] + summary_lines_spec(pv) + seq![Seq::<char>::empty()];
            assert forall|k: int| 0 <= k < parts@.len() implies views_of(parts@)[k] == want[k] by {
                if 0 < k < parts@.len() - 1 {
                    assert(parts@[k] == body[k]);
                    assert(body[(k - 1) + 1]@ == summary_line_spec(pv[k - 1]));
                    assert(summary_lines_spec(pv)[k - 1] == summary_line_spec(pv[k - 1]));
                }
            }
            assert(views_of(parts@) =~= want);
        }
    }

    let ghost after_summaries = views_of(parts@);

    if !current_text.is_empty() {
        parts.push("## 当前章节内容".to_owned());
        parts.push(current_text.to_owned());
        parts.push(crate::strutil::empty_string());
        proof {
            assert(views_of(parts@) =~= after_summaries
                + seq!["## 当前章节内容"@, current_text@, Seq::<char>::empty()]);
        }
    }

    let ghost after_text = views_of(parts@);

    let mut task_line = "## 任务：".to_owned();
    let action = if str_eq(task_action, "continue") {
        "续写正文".to_owned()
    } else if str_eq(task_action, "discuss") {
        "讨论创作".to_owned()
    } else if str_eq(task_action, "outline") {
        "生成大纲".to_owned()
    } else if str_eq(task_action, "polish") {
        "润色修改".to_owned()
    } else {
        task_action.to_owned()
    };
    task_line.append(action.as_str());
    parts.push(task_line);
    proof {
        assert(views_of(parts@) =~= after_text + seq!["## 任务："@ + action_text_spec(task_action@)]);
    }

    let ghost after_task = views_of(parts@);

    if !is_blank(instruction) {
        let mut said = "用户说：".to_owned();
        let trimmed = trim(instruction);
        said.append(trimmed.as_str());
        parts.push(said);
        proof {
            assert(views_of(parts@) =~= after_task + seq!["用户说："@ + trim_spec(instruction@)]);
        }
    }

    proof {
        assert(views_of(parts@) =~= user_parts_spec(pv, current_text@, task_action@, instruction@));
    }
    join_lines(&parts)
}

/// Relies on `time::OffsetDateTime::now_utc` and RFC 3339 formatting:
/// the current instant as a timestamp string; no two calls need agree.
#[verifier::external_body]
pub fn now_iso() -> (r: String)
{
    time::OffsetDateTime::now_utc()
        .format(&time::format_description::well_known::Rfc3339)
        .unwrap_or_else(|_| "1970-01-01T00:00:00Z".to_string())
}

/// The full conversation of a chat-completion call: the system
/// message, the history verbatim, then the latest user message.
pub fn to_openai_messages(system: String, history: &Vec<ChatMessage>, user: String) -> (r: Vec<WireMessage>)
    ensures
        r@.len() == history@.len() + 2,
        r@[0].role@ == "system"@ && r@[0].content == system,
        forall|i: int| 0 <= i < history@.len() ==>
            #[trigger] r@[i + 1].role == history@[i].role && r@[i + 1].content == history@[i].content,
        r@.last().role@ == "user"@ && r@.last().content == user,
{
    let mut out: Vec<WireMessage> = Vec::new();
    out.push(WireMessage { role: "system".to_owned(), content: system });
    let mut i: usize = 0;
    while i < history.len()
        invariant
            i <= history@.len(),
            out@.len() == i + 1,
            out@[0].role@ == "system"@,
            out@[0].content == system,
            forall|k: int| 0 <= k < i ==>
                #[trigger] out@[k + 1].role == history@[k].role
                && out@[k + 1].content == history@[k].content,
        decreases history@.len() - i,
    {
        out.push(WireMessage {
            role: history[i].role.clone(),
            content: history[i].content.clone(),
        });
        i = i + 1;
    }
    out.push(WireMessage { role: "user".to_owned(), content: user });
    out
}

} // verus!
