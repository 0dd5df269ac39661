//! Agent skills: validation of names and descriptions, reading a skill from
//! its Markdown file, the skill listing for the system prompt, and the
//! expansion of `/skill:name` commands.

use vstd::prelude::*;

use crate::frontmatter::{lookup, parse_frontmatter, split_frontmatter};
use crate::prompt_templates::strings_view;
use crate::text::{
    append, append_decimal, append_str, chars_eq, chars_eq_str, chars_of, contains, decimal,
    find_exec, index_of, index_of_exec, starts_with, starts_with_exec, str_byte_len,
    string_from_chars, sub_chars, to_string, trim, trim_chars, utf8_len,
};

verus! {

const MAX_NAME_LENGTH: u64 = 64;

const MAX_DESCRIPTION_LENGTH: u64 = 1024;

// ── Types ───────────────────────────────────────────────────────────────────

/// A discovered skill.
#[derive(Debug, Clone)]
pub struct Skill {
    pub name: String,
    pub description: String,
    pub file_path: String,
    pub base_dir: String,
    pub source_info: SkillSourceInfo,
    pub disable_model_invocation: bool,
}

/// Source metadata for a skill.
#[derive(Debug, Clone)]
pub struct SkillSourceInfo {
    pub source: String,
    pub scope: Option<String>,
    pub base_dir: String,
}

/// A diagnostic about a resource that could not be loaded as given.
#[derive(Debug, Clone)]
pub struct ResourceDiagnostic {
    pub level: DiagnosticLevel,
    pub message: String,
    pub path: String,
}

#[derive(Debug, Clone, Copy, PartialEq, Eq, Structural)]
pub enum DiagnosticLevel {
    Warning,
    Collision,
}

/// `(level, message, path)` of a diagnostic.
pub open spec fn diag_view(d: ResourceDiagnostic) -> (DiagnosticLevel, Seq<char>, Seq<char>) {
    (d.level, d.message@, d.path@)
}

pub open spec fn diags_view(ds: Seq<ResourceDiagnostic>) -> Seq<
    (DiagnosticLevel, Seq<char>, Seq<char>),
> {
    ds.map_values(|d: ResourceDiagnostic| diag_view(d))
}

impl ResourceDiagnostic {
    pub fn warning(message: &str, path: &str) -> (d: Self)
        ensures
            diag_view(d) == (DiagnosticLevel::Warning, message@, path@),
    {
        ResourceDiagnostic {
            level: DiagnosticLevel::Warning,
            message: to_string(message),
            path: to_string(path),
        }
    }

    pub fn collision(message: &str, path: &str) -> (d: Self)
        ensures
            diag_view(d) == (DiagnosticLevel::Collision, message@, path@),
    {
        ResourceDiagnostic {
            level: DiagnosticLevel::Collision,
            message: to_string(message),
            path: to_string(path),
        }
    }
}

/// Skills found and diagnostics raised while loading.
#[derive(Debug, Clone, Default)]
pub struct LoadSkillsResult {
    pub skills: Vec<Skill>,
    pub diagnostics: Vec<ResourceDiagnostic>,
}

// ── Name validation ─────────────────────────────────────────────────────────

pub open spec fn is_name_char(c: char) -> bool {
    ('a' <= c && c <= 'z') || ('0' <= c && c <= '9') || c == '-'
}

pub open spec fn message_if(cond: bool, message: Seq<char>) -> Seq<Seq<char>> {
    if cond {
        seq![message]
    } else {
        seq![]
    }
}

/// The problems with a skill name, in the order they are reported: longer
/// than 64 bytes; a character outside `a-z`, `0-9`, `-`; a hyphen at
/// either end; two hyphens in a row.
pub open spec fn name_errors(name: Seq<char>) -> Seq<Seq<char>> {
    message_if(
        utf8_len(name) > 64,
        "name exceeds "@ + decimal(64) + " characters ("@ + decimal(utf8_len(name)) + ")"@,
    ) + message_if(
        exists|i: int| 0 <= i < name.len() && !is_name_char(#[trigger] name[i]),
        "name contains invalid characters (must be lowercase a-z, 0-9, hyphens only)"@,
    ) + message_if(
        (name.len() > 0 && name[0] == '-') || (name.len() > 0 && name.last() == '-'),
        "name must not start or end with a hyphen"@,
    ) + message_if(contains(name, seq!['-', '-']), "name must not contain consecutive hyphens"@)
}

fn push_message(errors: &mut Vec<String>, cond: bool, message: Vec<char>)
    ensures
        strings_view(final(errors)@) == strings_view(old(errors)@) + message_if(cond, message@),
{
    let ghost before = strings_view(errors@);
    if cond {
        errors.push(string_from_chars(message.as_slice()));
        assert(strings_view(errors@) =~= before + seq![message@]);
    } else {
        assert(strings_view(errors@) =~= before + Seq::<Seq<char>>::empty());
    }
}

/// Validate a skill name. Returns the error messages (none if valid).
pub fn validate_name(name: &str) -> (errors: Vec<String>)
    ensures
        strings_view(errors@) == name_errors(name@),
{
    let n = chars_of(name);
    let len = str_byte_len(name);
    let mut errors: Vec<String> = Vec::new();
    assert(strings_view(errors@) =~= Seq::<Seq<char>>::empty());

    let mut m: Vec<char> = Vec::new();
    append_str(&mut m, "name exceeds ");
    append_decimal(&mut m, MAX_NAME_LENGTH);
    append_str(&mut m, " characters (");
    append_decimal(&mut m, len as u64);
    append_str(&mut m, ")");
    push_message(&mut errors, len as u64 > MAX_NAME_LENGTH, m);

    let mut all_valid = true;
    let mut i: usize = 0;
    while i < n.len()
        invariant
            i <= n@.len(),
            n@ == name@,
            all_valid == forall|j: int| 0 <= j < i ==> is_name_char(#[trigger] n@[j]),
        decreases n@.len() - i,
    {
        let c = n[i];
        if !(('a' <= c && c <= 'z') || ('0' <= c && c <= '9') || c == '-') {
            all_valid = false;
        }
        i = i + 1;
    }
    let mut m: Vec<char> = Vec::new();
    append_str(&mut m, "name contains invalid characters (must be lowercase a-z, 0-9, hyphens only)");
    push_message(&mut errors, !all_valid, m);

    let edge = n.len() > 0 && (n[0] == '-' || n[n.len() - 1] == '-');
    let mut m: Vec<char> = Vec::new();
    append_str(&mut m, "name must not start or end with a hyphen");
    push_message(&mut errors, edge, m);

    let dd = vec!['-', '-'];
    assert(dd@ =~= seq!['-', '-']);
    let double = find_exec(n.as_slice(), dd.as_slice()).is_some();
    let mut m: Vec<char> = Vec::new();
    append_str(&mut m, "name must not contain consecutive hyphens");
    push_message(&mut errors, double, m);
    errors
}

// ── Description validation ──────────────────────────────────────────────────

/// The problems with a skill description: missing or empty; longer than
/// 1024 bytes.
pub open spec fn description_errors(description: Option<Seq<char>>) -> Seq<Seq<char>> {
    match description {
        None => seq!["description is required"@],
        Some(d) => if d.len() == 0 {
            seq!["description is required"@]
        } else if utf8_len(d) > 1024 {
            seq!["description exceeds "@ + decimal(1024) + " characters ("@ + decimal(utf8_len(d)) + ")"@]
        } else {
            seq![]
        },
    }
}

pub open spec fn opt_view(o: Option<&str>) -> Option<Seq<char>> {
    match o {
        Some(s) => Some(s@),
        None => None,
    }
}

/// Validate a skill description. Returns the error messages (none if valid).
pub fn validate_description(description: Option<&str>) -> (errors: Vec<String>)
    ensures
        strings_view(errors@) == description_errors(opt_view(description)),
{
    let mut errors: Vec<String> = Vec::new();
    match description {
        None => {
            errors.push(to_string("description is required"));
        },
        Some(d) => {
            let len = str_byte_len(d);
            proof {
                crate::text::lemma_utf8_len_at_least_len(d@);
            }
            if len == 0 {
                errors.push(to_string("description is required"));
            } else if len as u64 > MAX_DESCRIPTION_LENGTH {
                let mut m: Vec<char> = Vec::new();
                append_str(&mut m, "description exceeds ");
                append_decimal(&mut m, MAX_DESCRIPTION_LENGTH);
                append_str(&mut m, " characters (");
                append_decimal(&mut m, len as u64);
                append_str(&mut m, ")");
                errors.push(string_from_chars(m.as_slice()));
            }
        },
    }
    assert(strings_view(errors@) =~= description_errors(opt_view(description)));
    errors
}

// ── Skill files ─────────────────────────────────────────────────────────────

/// Warnings with one path for each message.
pub open spec fn warnings_for(messages: Seq<Seq<char>>, path: Seq<char>) -> Seq<
    (DiagnosticLevel, Seq<char>, Seq<char>),
> {
    messages.map_values(|m: Seq<char>| (DiagnosticLevel::Warning, m, path))
}

/// The name a skill file declares, or else the name of its directory.
pub open spec fn declared_name(raw: Seq<char>, parent_dir_name: Seq<char>) -> Seq<char> {
    match lookup(split_frontmatter(raw).0, "name"@) {
        Some(n) => n,
        None => parent_dir_name,
    }
}

/// Whether a `disable-model-invocation` value switches the skill off for
/// the model.
pub open spec fn is_true_flag(v: Seq<char>) -> bool {
    v == "true"@ || v == "True"@ || v == "TRUE"@ || v == "yes"@
}

/// Whether a skill file yields a skill: it needs a non-empty description.
pub open spec fn skill_loads(raw: Seq<char>) -> bool {
    lookup(split_frontmatter(raw).0, "description"@) matches Some(d) && d.len() > 0
}

fn push_warnings(diags: &mut Vec<ResourceDiagnostic>, messages: &Vec<String>, path: &str)
    ensures
        diags_view(final(diags)@) == diags_view(old(diags)@) + warnings_for(
            strings_view(messages@),
            path@,
        ),
{
    let ghost start = diags_view(diags@);
    let ghost ms = strings_view(messages@);
    let mut i: usize = 0;
    while i < messages.len()
        invariant
            i <= messages@.len(),
            ms == strings_view(messages@),
            diags_view(diags@) == start + warnings_for(ms.take(i as int), path@),
        decreases messages@.len() - i,
    {
        let d = ResourceDiagnostic::warning(messages[i].as_str(), path);
        let ghost before = diags@;
        diags.push(d);
        assert(diags_view(diags@) =~= diags_view(before).push(diag_view(d)));
        assert(warnings_for(ms.take(i + 1), path@) =~= warnings_for(ms.take(i as int), path@).push(
            (DiagnosticLevel::Warning, ms[i as int], path@),
        ));
        i = i + 1;
    }
    assert(ms.take(messages@.len() as int) =~= ms);
}

/// Build a skill from the Markdown text of its file: the description is
/// validated, then the name (from the frontmatter, else the directory's
/// name); each problem becomes a warning on the file. Without a description
/// there is no skill.
pub fn skill_from_markdown(
    raw: &str,
    file_path: &str,
    parent_dir_name: &str,
    source: &str,
    base_dir: &str,
) -> (r: (Option<Skill>, Vec<ResourceDiagnostic>))
    ensures
        diags_view(r.1@) == warnings_for(
            description_errors(lookup(split_frontmatter(raw@).0, "description"@)),
            file_path@,
        ) + warnings_for(name_errors(declared_name(raw@, parent_dir_name@)), file_path@),
        r.0 is Some <==> skill_loads(raw@),
        r.0 matches Some(skill) ==> {
            &&& skill.name@ == declared_name(raw@, parent_dir_name@)
            &&& lookup(split_frontmatter(raw@).0, "description"@) == Some(skill.description@)
            &&& skill.file_path@ == file_path@
            &&& skill.base_dir@ == base_dir@
            &&& skill.source_info.source@ == source@
            &&& skill.source_info.scope is None
            &&& skill.source_info.base_dir@ == base_dir@
            &&& skill.disable_model_invocation == (lookup(
                split_frontmatter(raw@).0,
                "disable-model-invocation"@,
            ) matches Some(v) && is_true_flag(v))
        },
{
    let (fm, _body) = parse_frontmatter(raw);
    let mut diagnostics: Vec<ResourceDiagnostic> = Vec::new();
    assert(diags_view(diagnostics@) =~= Seq::<(DiagnosticLevel, Seq<char>, Seq<char>)>::empty());
    let description = fm.get("description");
    let desc_errors = match description {
        Some(d) => validate_description(Some(d.as_str())),
        None => validate_description(None),
    };
    push_warnings(&mut diagnostics, &desc_errors, file_path);
    let name = match fm.get("name") {
        Some(n) => to_string(n.as_str()),
        None => to_string(parent_dir_name),
    };
    let name_errors_v = validate_name(name.as_str());
    push_warnings(&mut diagnostics, &name_errors_v, file_path);
    assert(diags_view(diagnostics@) =~= Seq::<(DiagnosticLevel, Seq<char>, Seq<char>)>::empty()
        + warnings_for(
        description_errors(lookup(split_frontmatter(raw@).0, "description"@)),
        file_path@,
    ) + warnings_for(name_errors(declared_name(raw@, parent_dir_name@)), file_path@));
    let desc = match description {
        None => {
            return (None, diagnostics);
        },
        Some(d) => {
            if str_byte_len(d.as_str()) == 0 {
                proof {
                    crate::text::lemma_utf8_len_at_least_len(d@);
                }
                return (None, diagnostics);
            }
            proof {
                crate::text::lemma_utf8_len_at_least_len(d@);
            }
            to_string(d.as_str())
        },
    };
    let disable = match fm.get("disable-model-invocation") {
        Some(v) => {
            let vc = chars_of(v.as_str());
            chars_eq_str(vc.as_slice(), "true") || chars_eq_str(vc.as_slice(), "True")
                || chars_eq_str(vc.as_slice(), "TRUE") || chars_eq_str(vc.as_slice(), "yes")
        },
        None => false,
    };
    let skill = Skill {
        name,
        description: desc,
        file_path: to_string(file_path),
        base_dir: to_string(base_dir),
        source_info: SkillSourceInfo {
            source: to_string(source),
            scope: None,
            base_dir: to_string(base_dir),
        },
        disable_model_invocation: disable,
    };
    (Some(skill), diagnostics)
}

// ── The skill listing ───────────────────────────────────────────────────────

/// The character of `c` in XML text: `&`, `<`, `>`, `"` and `'` become
/// entities.
pub open spec fn escape_xml_char(c: char) -> Seq<char> {
    if c == '&' {
        "&amp;"@
    } else if c == '<' {
        "&lt;"@
    } else if c == '>' {
        "&gt;"@
    } else if c == '"' {
        "&quot;"@
    } else if c == '\'' {
        "&apos;"@
    } else {
        seq![c]
    }
}

pub open spec fn escape_xml_spec(s: Seq<char>) -> Seq<char>
    decreases s.len(),
{
    if s.len() == 0 {
        seq![]
    } else {
        escape_xml_spec(s.drop_last()) + escape_xml_char(s.last())
    }
}

fn escape_xml_into(out: &mut Vec<char>, s: &str)
    ensures
        final(out)@ == old(out)@ + escape_xml_spec(s@),
{
    let cs = chars_of(s);
    let ghost start = out@;
    let mut i: usize = 0;
    while i < cs.len()
        invariant
            i <= cs@.len(),
            cs@ == s@,
            out@ == start + escape_xml_spec(cs@.take(i as int)),
        decreases cs@.len() - i,
    {
        let c = cs[i];
        let ghost before = out@;
        if c == '&' {
            append_str(out, "&amp;");
        } else if c == '<' {
            append_str(out, "&lt;");
        } else if c == '>' {
            append_str(out, "&gt;");
        } else if c == '"' {
            append_str(out, "&quot;");
        } else if c == '\'' {
            append_str(out, "&apos;");
        } else {
            out.push(c);
            assert(out@ =~= before + seq![c]);
        }
        assert(cs@.take(i + 1).drop_last() =~= cs@.take(i as int));
        assert(out@ =~= start + escape_xml_spec(cs@.take(i + 1)));
        i = i + 1;
    }
    assert(cs@.take(cs@.len() as int) =~= cs@);
}

/// The listing entry of one skill.
pub open spec fn skill_entry(skill: Skill) -> Seq<char> {
    "\n  <skill>"@ + "\n    <name>"@ + escape_xml_spec(skill.name@) + "</name>"@
        + "\n    <description>"@ + escape_xml_spec(skill.description@) + "</description>"@
        + "\n    <location>"@ + escape_xml_spec(skill.file_path@) + "</location>"@
        + "\n  </skill>"@
}

/// The entries of the skills the model may invoke, in order.
pub open spec fn skill_entries(skills: Seq<Skill>) -> Seq<char>
    decreases skills.len(),
{
    if skills.len() == 0 {
        seq![]
    } else if skills.last().disable_model_invocation {
        skill_entries(skills.drop_last())
    } else {
        skill_entries(skills.drop_last()) + skill_entry(skills.last())
    }
}

/// The listing of two lists of skills is the listing of the first
/// followed by the listing of the second: no skill's entry is lost,
/// repeated or moved.
pub proof fn lemma_skill_entries_concat(s: Seq<Skill>, t: Seq<Skill>)
    ensures
        skill_entries(s + t) == skill_entries(s) + skill_entries(t),
    decreases t.len(),
{
    if t.len() == 0 {
        assert(s + t =~= s);
        assert(skill_entries(s) + Seq::<char>::empty() =~= skill_entries(s));
    } else {
        lemma_skill_entries_concat(s, t.drop_last());
        assert((s + t).drop_last() =~= s + t.drop_last());
        assert((s + t).last() == t.last());
        if t.last().disable_model_invocation {
        } else {
            assert(skill_entries(s) + skill_entries(t.drop_last()) + skill_entry(t.last())
                =~= skill_entries(s) + (skill_entries(t.drop_last()) + skill_entry(t.last())));
        }
    }
}

/// One skill's listing is its entry when the model may invoke it, and
/// nothing otherwise.
pub proof fn lemma_skill_entries_single(x: Skill)
    ensures
        skill_entries(seq![x]) == (if x.disable_model_invocation {
            Seq::<char>::empty()
        } else {
            skill_entry(x)
        }),
{
    assert(seq![x].drop_last() =~= Seq::<Skill>::empty());
    assert(seq![x].last() == x);
    assert(skill_entries(Seq::<Skill>::empty()) == Seq::<char>::empty());
    assert(Seq::<char>::empty() + skill_entry(x) =~= skill_entry(x));
}

/// Every skill the model may invoke has its entry in the listing: the
/// listing is the entries of the skills before it, its own entry, then
/// the entries of the skills after it.
pub proof fn lemma_visible_skill_listed(skills: Seq<Skill>, i: int)
    requires
        0 <= i < skills.len(),
        !skills[i].disable_model_invocation,
    ensures
        skill_entries(skills) == skill_entries(skills.take(i)) + skill_entry(skills[i])
            + skill_entries(skills.skip(i + 1)),
{
    assert(skills =~= skills.take(i) + (seq![skills[i]] + skills.skip(i + 1)));
    lemma_skill_entries_concat(skills.take(i), seq![skills[i]] + skills.skip(i + 1));
    lemma_skill_entries_concat(seq![skills[i]], skills.skip(i + 1));
    lemma_skill_entries_single(skills[i]);
    assert(skill_entries(skills.take(i)) + (skill_entry(skills[i]) + skill_entries(skills.skip(i + 1)))
        =~= skill_entries(skills.take(i)) + skill_entry(skills[i]) + skill_entries(skills.skip(i + 1)));
}

pub open spec fn any_visible(skills: Seq<Skill>) -> bool {
    exists|i: int| 0 <= i < skills.len() && !(#[trigger] skills[i]).disable_model_invocation
}

pub open spec fn skills_intro() -> Seq<char> {
    "\n"@ + "The following skills provide specialized instructions for specific tasks."@ + "\n"@
        + "Use the read tool to load a skill's file when the task matches its description."@
        + "\n"@
        + "When a skill file references a relative path, resolve it against the skill directory (parent of SKILL.md / dirname of the path) and use that absolute path in tool commands."@
        + "\n"@ + "\n"@ + "<available_skills>"@
}

/// The skills section of the system prompt: empty when no skill may be
/// invoked by the model, else the instructions and one XML entry per such
/// skill.
pub open spec fn skills_prompt(skills: Seq<Skill>) -> Seq<char> {
    if !any_visible(skills) {
        seq![]
    } else {
        skills_intro() + skill_entries(skills) + "\n</available_skills>"@
    }
}

/// Format skills for inclusion in a system prompt. Skills with
/// `disable_model_invocation` are left out: they can only be invoked
/// explicitly through `/skill:name`.
pub fn format_skills_for_prompt(skills: &[Skill]) -> (r: String)
    ensures
        r@ == skills_prompt(skills@),
{
    let mut entries: Vec<char> = Vec::new();
    let mut visible = false;
    let mut i: usize = 0;
    while i < skills.len()
        invariant
            i <= skills@.len(),
            entries@ == skill_entries(skills@.take(i as int)),
            visible == any_visible(skills@.take(i as int)),
        decreases skills@.len() - i,
    {
        let ghost before = entries@;
        assert(skills@.take(i + 1).drop_last() =~= skills@.take(i as int));
        assert(skills@.take(i + 1).last() == skills@[i as int]);
        if !skills[i].disable_model_invocation {
            append_str(&mut entries, "\n  <skill>");
            append_str(&mut entries, "\n    <name>");
            escape_xml_into(&mut entries, skills[i].name.as_str());
            append_str(&mut entries, "</name>");
            append_str(&mut entries, "\n    <description>");
            escape_xml_into(&mut entries, skills[i].description.as_str());
            append_str(&mut entries, "</description>");
            append_str(&mut entries, "\n    <location>");
            escape_xml_into(&mut entries, skills[i].file_path.as_str());
            append_str(&mut entries, "</location>");
            append_str(&mut entries, "\n  </skill>");
            assert(entries@ =~= before + skill_entry(skills@[i as int]));
            assert(skills@.take(i + 1)[i as int] == skills@[i as int]);
            visible = true;
        } else {
            assert forall|j: int|
                0 <= j < i + 1 && !(#[trigger] skills@.take(i + 1)[j]).disable_model_invocation
                implies 0 <= j < i && !skills@.take(i as int)[j].disable_model_invocation by {}
        }
        proof {
            if any_visible(skills@.take(i as int)) {
                let j = choose|j: int|
                    0 <= j < i && !(#[trigger] skills@.take(i as int)[j]).disable_model_invocation;
                assert(skills@.take(i + 1)[j] == skills@.take(i as int)[j]);
            }
        }
        i = i + 1;
    }
    assert(skills@.take(skills@.len() as int) =~= skills@);
    if !visible {
        return String::new();
    }
    let mut out: Vec<char> = Vec::new();
    append_str(&mut out, "\n");
    append_str(&mut out, "The following skills provide specialized instructions for specific tasks.");
    append_str(&mut out, "\n");
    append_str(&mut out, "Use the read tool to load a skill's file when the task matches its description.");
    append_str(&mut out, "\n");
    append_str(
        &mut out,
        "When a skill file references a relative path, resolve it against the skill directory (parent of SKILL.md / dirname of the path) and use that absolute path in tool commands.",
    );
    append_str(&mut out, "\n");
    append_str(&mut out, "\n");
    append_str(&mut out, "<available_skills>");
    append(&mut out, entries.as_slice());
    append_str(&mut out, "\n</available_skills>");
    assert(out@ =~= skills_prompt(skills@));
    string_from_chars(out.as_slice())
}

// ── `/skill:name` commands ──────────────────────────────────────────────────

/// Name and argument text of a `/skill:name args` command: the name runs to
/// the first space, the arguments are the trimmed rest.
pub open spec fn skill_command(text: Seq<char>) -> Option<(Seq<char>, Seq<char>)> {
    if !starts_with(text, "/skill:"@) {
        None
    } else {
        let rest = text.skip(7);
        match index_of(rest, ' ') {
            Some(p) => Some((rest.take(p), trim(rest.skip(p + 1)))),
            None => Some((rest, seq![])),
        }
    }
}

/// Index of the first skill named `name`, searching from `i`.
pub open spec fn skill_index(skills: Seq<Skill>, name: Seq<char>, i: int) -> Option<int>
    decreases skills.len() - i,
{
    if i < 0 || i >= skills.len() {
        None
    } else if skills[i].name@ == name {
        Some(i)
    } else {
        skill_index(skills, name, i + 1)
    }
}

proof fn lemma_skill_index_bound(skills: Seq<Skill>, name: Seq<char>, i: int)
    ensures
        skill_index(skills, name, i) matches Some(k) ==> 0 <= i <= k < skills.len()
            && skills[k].name@ == name,
    decreases skills.len() - i,
{
    if 0 <= i < skills.len() && skills[i].name@ != name {
        lemma_skill_index_bound(skills, name, i + 1);
    }
}

/// The skill a command text names, if it is a `/skill:` command for a
/// known skill.
pub open spec fn skill_target(text: Seq<char>, skills: Seq<Skill>) -> Option<int> {
    match skill_command(text) {
        Some(c) => skill_index(skills, c.0, 0),
        None => None,
    }
}

/// The text a skill command expands to, given the content of the skill's
/// file: the trimmed body in a `<skill>` element, then the arguments (when
/// given) after a blank line.
pub open spec fn skill_block(skill: Skill, content: Seq<char>, args: Seq<char>) -> Seq<char> {
    let block = "<skill name=\""@ + skill.name@ + "\" location=\""@ + skill.file_path@
        + "\">\nReferences are relative to "@ + skill.base_dir@ + ".\n\n"@ + trim(
        split_frontmatter(content).1,
    ) + "\n</skill>"@;
    if args.len() > 0 {
        block + "\n\n"@ + args
    } else {
        block
    }
}

/// The expansion of a skill command; the text itself when it names no
/// known skill or the skill's file could not be read.
pub open spec fn skill_expansion(text: Seq<char>, skills: Seq<Skill>, content: Option<Seq<char>>) -> Seq<
    char,
> {
    match (skill_target(text, skills), content) {
        (Some(i), Some(c)) => skill_block(skills[i], c, skill_command(text).unwrap().1),
        _ => text,
    }
}

fn skill_command_exec(t: &[char]) -> (r: Option<(Vec<char>, Vec<char>)>)
    ensures
        match skill_command(t@) {
            None => r is None,
            Some(c) => r matches Some(v) && v.0@ == c.0 && v.1@ == c.1,
        },
{
    let prefix = chars_of("/skill:");
    proof {
        reveal_strlit("/skill:");
    }
    if !starts_with_exec(t, prefix.as_slice()) {
        return None;
    }
    let rest = sub_chars(t, 7, t.len());
    assert(rest@ =~= t@.skip(7));
    match index_of_exec(rest.as_slice(), ' ') {
        Some(p) => {
            let name = sub_chars(rest.as_slice(), 0, p);
            let after = sub_chars(rest.as_slice(), p + 1, rest.len());
            assert(name@ =~= rest@.take(p as int));
            assert(after@ =~= rest@.skip(p + 1));
            Some((name, trim_chars(after.as_slice())))
        },
        None => Some((rest, Vec::new())),
    }
}

/// Which skill's file a command text needs: the index of the skill it
/// names, when it is a `/skill:` command for a known skill.
pub fn skill_command_target(text: &str, skills: &[Skill]) -> (r: Option<usize>)
    ensures
        match r {
            Some(k) => skill_target(text@, skills@) == Some(k as int) && k < skills@.len(),
            None => skill_target(text@, skills@) is None,
        },
{
    let t = chars_of(text);
    match skill_command_exec(t.as_slice()) {
        None => None,
        Some((name, _args)) => {
            let mut i: usize = 0;
            while i < skills.len()
                invariant
                    i <= skills@.len(),
                    t@ == text@,
                    skill_command(text@) matches Some(c) && c.0 == name@,
                    skill_index(skills@, name@, 0) == skill_index(skills@, name@, i as int),
                decreases skills@.len() - i,
            {
                let n = chars_of(skills[i].name.as_str());
                if chars_eq(n.as_slice(), name.as_slice()) {
                    return Some(i);
                }
                i = i + 1;
            }
            None
        },
    }
}

/// Expand a `/skill:name args` command, given the content of the named
/// skill's file (`None` when it could not be read). Text that is not a
/// command for a known skill comes back unchanged.
pub fn expand_skill_command(text: &str, skills: &[Skill], content: Option<&str>) -> (r: String)
    ensures
        r@ == skill_expansion(text@, skills@, opt_view(content)),
{
    let t = chars_of(text);
    let target = skill_command_target(text, skills);
    proof {
        if let Some(c) = skill_command(text@) {
            lemma_skill_index_bound(skills@, c.0, 0);
        }
    }
    match (target, content) {
        (Some(i), Some(c)) => {
            let parts = skill_command_exec(t.as_slice());
            let args = match parts {
                Some((_, a)) => a,
                None => Vec::new(),
            };
            let skill = &skills[i];
            let (_fm, body) = parse_frontmatter(c);
            let b = trim_chars(chars_of(body.as_str()).as_slice());
            let mut out: Vec<char> = Vec::new();
            append_str(&mut out, "<skill name=\"");
            append_str(&mut out, skill.name.as_str());
            append_str(&mut out, "\" location=\"");
            append_str(&mut out, skill.file_path.as_str());
            append_str(&mut out, "\">\nReferences are relative to ");
            append_str(&mut out, skill.base_dir.as_str());
            append_str(&mut out, ".\n\n");
            append(&mut out, b.as_slice());
            append_str(&mut out, "\n</skill>");
            if args.len() > 0 {
                append_str(&mut out, "\n\n");
                append(&mut out, args.as_slice());
            }
            assert(out@ =~= skill_expansion(text@, skills@, opt_view(content)));
            string_from_chars(out.as_slice())
        },
        _ => string_from_chars(t.as_slice()),
    }
}

} // verus!
