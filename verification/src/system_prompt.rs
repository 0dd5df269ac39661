//! System prompt assembly: tool list, guidelines, documentation pointers,
//! appended text, project context files, skills and the working directory.

use vstd::prelude::*;

use crate::skills::{format_skills_for_prompt, skills_prompt, Skill};
use crate::text::{
    append, append_str, chars_eq, chars_eq_str, chars_of, join, join_exec, string_from_chars, trim,
    trim_chars,
};

verus! {

/// Options for building the system prompt.
#[derive(Debug, Clone, Default)]
pub struct BuildSystemPromptOptions {
    /// Custom system prompt (replaces the default one).
    pub custom_prompt: Option<String>,
    /// Tools to list. With none, no tool is listed.
    pub selected_tools: Vec<String>,
    /// One-line tool descriptions keyed by tool name.
    pub tool_snippets: Vec<(String, String)>,
    /// Additional guideline bullets.
    pub prompt_guidelines: Vec<String>,
    /// Text appended to the prompt.
    pub append_system_prompt: Option<String>,
    /// Working directory.
    pub cwd: String,
    /// Project context files (project instructions), already read.
    pub context_files: Vec<ContextFile>,
    /// Skills, already loaded.
    pub skills: Vec<Skill>,
}

/// A project context file (such as `AGENTS.md`).
#[derive(Debug, Clone)]
pub struct ContextFile {
    pub path: String,
    pub content: String,
}

// ── The parts of the prompt ─────────────────────────────────────────────────

/// The working directory with every `\` written as `/`.
pub open spec fn forward_slashes(s: Seq<char>) -> Seq<char> {
    s.map_values(|c: char| if c == '\\' { '/' } else { c })
}

pub open spec fn names_view(v: Seq<String>) -> Seq<Seq<char>> {
    v.map_values(|s: String| s@)
}

pub open spec fn has_tool(tools: Seq<String>, name: Seq<char>) -> bool {
    exists|i: int| 0 <= i < tools.len() && (#[trigger] tools[i])@ == name
}

pub open spec fn append_section(append: Option<String>) -> Seq<char> {
    match append {
        Some(s) => "\n\n"@ + s@,
        None => seq![],
    }
}

pub open spec fn context_entry(f: ContextFile) -> Seq<char> {
    "<project_instructions path=\""@ + f.path@ + "\">\n"@ + f.content@
        + "\n</project_instructions>\n\n"@
}

pub open spec fn context_entries(fs: Seq<ContextFile>) -> Seq<char>
    decreases fs.len(),
{
    if fs.len() == 0 {
        seq![]
    } else {
        context_entries(fs.drop_last()) + context_entry(fs.last())
    }
}

/// The project-context section; empty without context files.
pub open spec fn context_section(fs: Seq<ContextFile>) -> Seq<char> {
    if fs.len() == 0 {
        seq![]
    } else {
        "\n\n<project_context>\n\n"@ + "Project-specific instructions and guidelines:\n\n"@
            + context_entries(fs) + "</project_context>\n"@
    }
}

/// The skills section: present when the read tool is available (or no
/// tool list was given) and there are skills.
pub open spec fn skills_section(tools: Seq<String>, skills: Seq<Skill>) -> Seq<char> {
    if (tools.len() == 0 || has_tool(tools, "read"@)) && skills.len() > 0 {
        skills_prompt(skills)
    } else {
        seq![]
    }
}

/// Everything after the prompt body: appended text, context, skills and
/// the working directory.
pub open spec fn prompt_tail(o: BuildSystemPromptOptions) -> Seq<char> {
    append_section(o.append_system_prompt) + context_section(o.context_files@) + skills_section(
        o.selected_tools@,
        o.skills@,
    ) + "\nCurrent working directory: "@ + forward_slashes(o.cwd@)
}

/// Snippet of the first entry for `name`.
pub open spec fn snippet_of(snippets: Seq<(String, String)>, name: Seq<char>, i: int) -> Option<
    Seq<char>,
>
    decreases snippets.len() - i,
{
    if i < 0 || i >= snippets.len() {
        None
    } else if snippets[i].0@ == name {
        Some(snippets[i].1@)
    } else {
        snippet_of(snippets, name, i + 1)
    }
}

/// `- name: snippet` for each selected tool that has a snippet, in the
/// order of the selection.
pub open spec fn tool_lines(tools: Seq<String>, snippets: Seq<(String, String)>) -> Seq<Seq<char>>
    decreases tools.len(),
{
    if tools.len() == 0 {
        seq![]
    } else {
        let prev = tool_lines(tools.drop_last(), snippets);
        match snippet_of(snippets, tools.last()@, 0) {
            Some(sn) => prev.push("- "@ + tools.last()@ + ": "@ + sn),
            None => prev,
        }
    }
}

pub open spec fn tools_list(tools: Seq<String>, snippets: Seq<(String, String)>) -> Seq<char> {
    let ls = tool_lines(tools, snippets);
    if ls.len() == 0 {
        "(none)"@
    } else {
        join(ls, seq!['\n'])
    }
}

/// The extra guidelines, trimmed, without the blank ones.
pub open spec fn extra_guidelines(gs: Seq<String>) -> Seq<Seq<char>>
    decreases gs.len(),
{
    if gs.len() == 0 {
        seq![]
    } else {
        let prev = extra_guidelines(gs.drop_last());
        if trim(gs.last()@).len() > 0 {
            prev.push(trim(gs.last()@))
        } else {
            prev
        }
    }
}

/// All guidelines: the file-operations hint when bash is the only file
/// tool, the extra ones, then the defaults.
pub open spec fn guidelines(o: BuildSystemPromptOptions) -> Seq<Seq<char>> {
    let t = o.selected_tools@;
    let hint = if has_tool(t, "bash"@) && !has_tool(t, "grep"@) && !has_tool(t, "find"@)
        && !has_tool(t, "ls"@) {
        seq!["Use bash for file operations like ls, rg, find"@]
    } else {
        seq![]
    };
    hint + extra_guidelines(o.prompt_guidelines@) + seq![
        "Be concise in your responses"@,
        "Show file paths clearly when working with files"@,
    ]
}

pub open spec fn bullets(gs: Seq<Seq<char>>) -> Seq<Seq<char>> {
    gs.map_values(|g: Seq<char>| "- "@ + g)
}

pub open spec fn doc_intro() -> Seq<char> {
    "Pi documentation (read only when the user asks about pi itself, its SDK, extensions, themes, skills, or TUI):
- Main documentation: README.md
- Additional docs: docs/
- Examples: examples/ (extensions, custom tools, SDK)
- When reading pi docs or examples, resolve docs/... under Additional docs and examples/... under Examples, not the current working directory
- When asked about: extensions (docs/extensions.md, examples/extensions/), themes (docs/themes.md), skills (docs/skills.md), prompt templates (docs/prompt-templates.md), TUI components (docs/tui.md), keybindings (docs/keybindings.md), SDK integrations (docs/sdk.md), custom providers (docs/custom-provider.md), adding models (docs/models.md), pi packages (docs/packages.md)
- When working on pi topics, read the docs and examples, and follow .md cross-references before implementing
- Always read pi .md files completely and follow links to related docs (e.g., tui.md for TUI API details)"@
}

/// The default prompt body: role, tools, guidelines and documentation.
pub open spec fn default_body(o: BuildSystemPromptOptions) -> Seq<char> {
    "You are an expert coding assistant operating inside pi, a coding agent harness. You help users by reading files, executing commands, editing code, and writing new files.\n\nAvailable tools:\n"@
        + tools_list(o.selected_tools@, o.tool_snippets@)
        + "\n\nIn addition to the tools above, you may have access to other custom tools depending on the project.\n\nGuidelines:\n"@
        + join(bullets(guidelines(o)), seq!['\n']) + "\n\n"@ + doc_intro()
}

/// The system prompt: the custom prompt when given, else the default body;
/// then the tail.
pub open spec fn system_prompt(o: BuildSystemPromptOptions) -> Seq<char> {
    match o.custom_prompt {
        Some(c) => c@ + prompt_tail(o),
        None => default_body(o) + prompt_tail(o),
    }
}

// ── Assembly ────────────────────────────────────────────────────────────────

fn contains_tool(tools: &[String], name: &str) -> (r: bool)
    ensures
        r == has_tool(tools@, name@),
{
    let mut i: usize = 0;
    while i < tools.len()
        invariant
            i <= tools@.len(),
            forall|j: int| 0 <= j < i ==> (#[trigger] tools@[j])@ != name@,
        decreases tools@.len() - i,
    {
        let t = chars_of(tools[i].as_str());
        if chars_eq_str(t.as_slice(), name) {
            return true;
        }
        i = i + 1;
    }
    false
}

fn snippet_exec(snippets: &[(String, String)], name: &[char]) -> (r: Option<Vec<char>>)
    ensures
        match snippet_of(snippets@, name@, 0) {
            Some(sn) => r matches Some(v) && v@ == sn,
            None => r is None,
        },
{
    let mut i: usize = 0;
    while i < snippets.len()
        invariant
            i <= snippets@.len(),
            snippet_of(snippets@, name@, 0) == snippet_of(snippets@, name@, i as int),
        decreases snippets@.len() - i,
    {
        let n = chars_of(snippets[i].0.as_str());
        if chars_eq(n.as_slice(), name) {
            return Some(chars_of(snippets[i].1.as_str()));
        }
        i = i + 1;
    }
    None
}

fn tools_list_exec(tools: &[String], snippets: &[(String, String)]) -> (r: Vec<char>)
    ensures
        r@ == tools_list(tools@, snippets@),
{
    let mut parts: Vec<Vec<char>> = Vec::new();
    let mut i: usize = 0;
    while i < tools.len()
        invariant
            i <= tools@.len(),
            parts@.map_values(|p: Vec<char>| p@) == tool_lines(tools@.take(i as int), snippets@),
        decreases tools@.len() - i,
    {
        assert(tools@.take(i + 1).drop_last() =~= tools@.take(i as int));
        let name = chars_of(tools[i].as_str());
        match snippet_exec(snippets, name.as_slice()) {
            Some(sn) => {
                let mut line: Vec<char> = Vec::new();
                append_str(&mut line, "- ");
                append(&mut line, name.as_slice());
                append_str(&mut line, ": ");
                append(&mut line, sn.as_slice());
                let ghost before = parts@;
                parts.push(line);
                assert(parts@.map_values(|p: Vec<char>| p@) =~= before.map_values(
                    |p: Vec<char>| p@,
                ).push(line@));
            },
            None => {},
        }
        i = i + 1;
    }
    assert(tools@.take(tools@.len() as int) =~= tools@);
    if parts.len() == 0 {
        let mut r: Vec<char> = Vec::new();
        append_str(&mut r, "(none)");
        assert(r@ =~= "(none)"@);
        r
    } else {
        let nl = vec!['\n'];
        assert(nl@ =~= seq!['\n']);
        join_exec(parts.as_slice(), nl.as_slice())
    }
}

fn push_bullet(parts: &mut Vec<Vec<char>>, g: &[char])
    ensures
        final(parts)@.map_values(|p: Vec<char>| p@) == old(parts)@.map_values(|p: Vec<char>| p@).push(
            "- "@ + g@,
        ),
{
    let mut line: Vec<char> = Vec::new();
    append_str(&mut line, "- ");
    append(&mut line, g);
    let ghost before = parts@;
    parts.push(line);
    assert(parts@.map_values(|p: Vec<char>| p@) =~= before.map_values(|p: Vec<char>| p@).push(
        "- "@ + g@,
    ));
}

fn guideline_lines(o: &BuildSystemPromptOptions) -> (r: Vec<char>)
    ensures
        r@ == join(bullets(guidelines(*o)), seq!['\n']),
{
    let t = o.selected_tools.as_slice();
    let mut parts: Vec<Vec<char>> = Vec::new();
    let hint = contains_tool(t, "bash") && !contains_tool(t, "grep") && !contains_tool(t, "find")
        && !contains_tool(t, "ls");
    if hint {
        push_bullet(&mut parts, chars_of("Use bash for file operations like ls, rg, find").as_slice());
    }
    let ghost head = parts@.map_values(|p: Vec<char>| p@);
    proof {
        if hint {
            assert(head =~= bullets(seq!["Use bash for file operations like ls, rg, find"@]));
        } else {
            assert(head =~= bullets(seq![]));
        }
    }
    let gs = o.prompt_guidelines.as_slice();
    let mut i: usize = 0;
    while i < gs.len()
        invariant
            i <= gs@.len(),
            gs@ == o.prompt_guidelines@,
            parts@.map_values(|p: Vec<char>| p@) == head + bullets(
                extra_guidelines(gs@.take(i as int)),
            ),
        decreases gs@.len() - i,
    {
        assert(gs@.take(i + 1).drop_last() =~= gs@.take(i as int));
        let g = trim_chars(chars_of(gs[i].as_str()).as_slice());
        if g.len() > 0 {
            push_bullet(&mut parts, g.as_slice());
            assert(bullets(extra_guidelines(gs@.take(i + 1))) =~= bullets(
                extra_guidelines(gs@.take(i as int)),
            ).push("- "@ + g@));
        }
        i = i + 1;
    }
    assert(gs@.take(gs@.len() as int) =~= gs@);
    let ghost mid = parts@.map_values(|p: Vec<char>| p@);
    push_bullet(&mut parts, chars_of("Be concise in your responses").as_slice());
    push_bullet(&mut parts, chars_of("Show file paths clearly when working with files").as_slice());
    proof {
        let tools = o.selected_tools@;
        let h = if has_tool(tools, "bash"@) && !has_tool(tools, "grep"@) && !has_tool(tools, "find"@)
            && !has_tool(tools, "ls"@) {
            seq!["Use bash for file operations like ls, rg, find"@]
        } else {
            seq![]
        };
        assert(head =~= bullets(h));
        assert(parts@.map_values(|p: Vec<char>| p@) =~= bullets(guidelines(*o)));
    }
    let nl = vec!['\n'];
    assert(nl@ =~= seq!['\n']);
    join_exec(parts.as_slice(), nl.as_slice())
}

fn append_context(out: &mut Vec<char>, fs: &[ContextFile])
    ensures
        final(out)@ == old(out)@ + context_section(fs@),
{
    let ghost start = out@;
    if fs.len() > 0 {
        append_str(out, "\n\n<project_context>\n\n");
        append_str(out, "Project-specific instructions and guidelines:\n\n");
        let ghost s2 = out@;
        let mut i: usize = 0;
        while i < fs.len()
            invariant
                i <= fs@.len(),
                out@ == s2 + context_entries(fs@.take(i as int)),
            decreases fs@.len() - i,
        {
            assert(fs@.take(i + 1).drop_last() =~= fs@.take(i as int));
            append_str(out, "<project_instructions path=\"");
            append_str(out, fs[i].path.as_str());
            append_str(out, "\">\n");
            append_str(out, fs[i].content.as_str());
            append_str(out, "\n</project_instructions>\n\n");
            i = i + 1;
            assert(out@ =~= s2 + context_entries(fs@.take(i as int)));
        }
        assert(fs@.take(fs@.len() as int) =~= fs@);
        append_str(out, "</project_context>\n");
    }
    assert(out@ =~= start + context_section(fs@));
}

fn append_forward_slashes(out: &mut Vec<char>, s: &str)
    ensures
        final(out)@ == old(out)@ + forward_slashes(s@),
{
    let cs = chars_of(s);
    let ghost start = out@;
    let mut k: usize = 0;
    while k < cs.len()
        invariant
            k <= cs@.len(),
            cs@ == s@,
            out@ == start + forward_slashes(cs@.take(k as int)),
        decreases cs@.len() - k,
    {
        let c = cs[k];
        if c == '\\' {
            out.push('/');
        } else {
            out.push(c);
        }
        k = k + 1;
        assert(out@ =~= start + forward_slashes(cs@.take(k as int)));
    }
    assert(cs@.take(cs@.len() as int) =~= cs@);
}

fn append_tail(out: &mut Vec<char>, o: &BuildSystemPromptOptions)
    ensures
        final(out)@ == old(out)@ + prompt_tail(*o),
{
    let ghost start = out@;
    match &o.append_system_prompt {
        Some(a) => {
            append_str(out, "\n\n");
            append_str(out, a.as_str());
        },
        None => {},
    }
    assert(out@ =~= start + append_section(o.append_system_prompt));
    let ghost s1 = out@;
    append_context(out, o.context_files.as_slice());
    let ghost s3 = out@;
    let t = o.selected_tools.as_slice();
    let has_read = t.len() == 0 || contains_tool(t, "read");
    if has_read && o.skills.len() > 0 {
        let sk = format_skills_for_prompt(o.skills.as_slice());
        append_str(out, sk.as_str());
    }
    assert(out@ =~= s3 + skills_section(o.selected_tools@, o.skills@));
    let ghost s4 = out@;
    append_str(out, "\nCurrent working directory: ");
    append_forward_slashes(out, o.cwd.as_str());
    assert(out@ =~= start + prompt_tail(*o));
}

/// Build the system prompt with tools, guidelines, skills and project
/// context.
pub fn build_system_prompt(options: BuildSystemPromptOptions) -> (r: String)
    ensures
        r@ == system_prompt(options),
{
    render_system_prompt(&options)
}

/// [`build_system_prompt`] on borrowed options.
pub fn render_system_prompt(options: &BuildSystemPromptOptions) -> (r: String)
    ensures
        r@ == system_prompt(*options),
{
    let mut out: Vec<char> = Vec::new();
    match &options.custom_prompt {
        Some(c) => {
            append_str(&mut out, c.as_str());
        },
        None => {
            append_str(
                &mut out,
                "You are an expert coding assistant operating inside pi, a coding agent harness. You help users by reading files, executing commands, editing code, and writing new files.\n\nAvailable tools:\n",
            );
            let tl = tools_list_exec(options.selected_tools.as_slice(), options.tool_snippets.as_slice());
            append(&mut out, tl.as_slice());
            append_str(
                &mut out,
                "\n\nIn addition to the tools above, you may have access to other custom tools depending on the project.\n\nGuidelines:\n",
            );
            let gl = guideline_lines(options);
            append(&mut out, gl.as_slice());
            append_str(&mut out, "\n\n");
            append_str(
                &mut out,
                "Pi documentation (read only when the user asks about pi itself, its SDK, extensions, themes, skills, or TUI):
- Main documentation: README.md
- Additional docs: docs/
- Examples: examples/ (extensions, custom tools, SDK)
- When reading pi docs or examples, resolve docs/... under Additional docs and examples/... under Examples, not the current working directory
- When asked about: extensions (docs/extensions.md, examples/extensions/), themes (docs/themes.md), skills (docs/skills.md), prompt templates (docs/prompt-templates.md), TUI components (docs/tui.md), keybindings (docs/keybindings.md), SDK integrations (docs/sdk.md), custom providers (docs/custom-provider.md), adding models (docs/models.md), pi packages (docs/packages.md)
- When working on pi topics, read the docs and examples, and follow .md cross-references before implementing
- Always read pi .md files completely and follow links to related docs (e.g., tui.md for TUI API details)",
            );
            assert(out@ =~= default_body(*options));
        },
    }
    let ghost body = out@;
    append_tail(&mut out, options);
    string_from_chars(out.as_slice())
}

} // verus!
