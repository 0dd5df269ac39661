//! The prompt session: the templates, skills and prompt inputs of a
//! session, the system prompt derived from them, and the expansion of
//! `/template` and `/skill:name` commands before a prompt reaches the
//! agent.

use vstd::prelude::*;

use crate::prompt_templates::{
    expand_prompt_template, expansion, selected_template, selects_template, PromptTemplate,
};
use crate::session_controller::{model_view, ModelSummary};
use crate::skills::{expand_skill_command, opt_view, skill_command_target, skill_expansion, skill_target, Skill};
use crate::system_prompt::{render_system_prompt, BuildSystemPromptOptions, ContextFile};
use crate::text::{chars_eq, chars_of, to_string};

verus! {

/// A session's prompt state: what the system prompt is derived from, and
/// the prompt derived from it.
pub struct PromptSession {
    model: ModelSummary,
    agent_dir: String,
    include_defaults: bool,
    templates: Vec<PromptTemplate>,
    prompt_state: BuildSystemPromptOptions,
    system_prompt: String,
}

/// The text a prompt becomes: a `/skill:` command for a known skill (whose
/// file was read) expands to the skill; any other text goes through
/// template expansion.
pub open spec fn prompt_expansion(
    text: Seq<char>,
    skills: Seq<Skill>,
    templates: Seq<PromptTemplate>,
    skill_content: Option<Seq<char>>,
) -> Seq<char> {
    let after_skills = skill_expansion(text, skills, skill_content);
    if after_skills == text {
        expansion(text, templates)
    } else {
        after_skills
    }
}

impl PromptSession {
    /// The inputs the system prompt is derived from.
    pub closed spec fn state(&self) -> BuildSystemPromptOptions {
        self.prompt_state
    }

    pub closed spec fn templates_view(&self) -> Seq<PromptTemplate> {
        self.templates@
    }

    pub closed spec fn model_view(&self) -> ModelSummary {
        self.model
    }

    pub closed spec fn agent_dir_view(&self) -> Seq<char> {
        self.agent_dir@
    }

    pub closed spec fn include_defaults(&self) -> bool {
        self.include_defaults
    }

    pub closed spec fn prompt(&self) -> Seq<char> {
        self.system_prompt@
    }

    /// The system prompt is the one derived from the current state.
    pub open spec fn wf(&self) -> bool {
        self.prompt() == crate::system_prompt::system_prompt(self.state())
    }

    /// A session for `model` with the given tools (name and description),
    /// working directory, configuration directory, loaded templates and
    /// skills, and initial context files. Every tool is listed in the
    /// system prompt with its description.
    pub fn new(
        model: ModelSummary,
        tools: Vec<(String, String)>,
        cwd: String,
        agent_dir: String,
        templates: Vec<PromptTemplate>,
        skills: Vec<Skill>,
        include_defaults: bool,
        context_files: Vec<ContextFile>,
    ) -> (s: Self)
        ensures
            s.wf(),
            s.model_view() == model,
            s.agent_dir_view() == agent_dir@,
            s.include_defaults() == include_defaults,
            s.templates_view() == templates@,
            s.state().custom_prompt is None,
            s.state().append_system_prompt is None,
            s.state().prompt_guidelines@.len() == 0,
            s.state().cwd == cwd,
            s.state().context_files == context_files,
            s.state().skills == skills,
            s.state().tool_snippets == tools,
            s.state().selected_tools@.map_values(|n: String| n@) == tools@.map_values(
                |t: (String, String)| t.0@,
            ),
    {
        let mut selected_tools: Vec<String> = Vec::new();
        let mut i: usize = 0;
        while i < tools.len()
            invariant
                i <= tools@.len(),
                selected_tools@.map_values(|n: String| n@) == tools@.take(i as int).map_values(
                    |t: (String, String)| t.0@,
                ),
            decreases tools@.len() - i,
        {
            let ghost before = selected_tools@;
            selected_tools.push(to_string(tools[i].0.as_str()));
            assert(selected_tools@.map_values(|n: String| n@) =~= before.map_values(|n: String| n@).push(
                tools@[i as int].0@,
            ));
            assert(tools@.take(i + 1).map_values(|t: (String, String)| t.0@) =~= tools@.take(
                i as int,
            ).map_values(|t: (String, String)| t.0@).push(tools@[i as int].0@));
            i = i + 1;
        }
        assert(tools@.take(tools@.len() as int) =~= tools@);
        let prompt_state = BuildSystemPromptOptions {
            custom_prompt: None,
            selected_tools,
            tool_snippets: tools,
            prompt_guidelines: Vec::new(),
            append_system_prompt: None,
            cwd,
            context_files,
            skills,
        };
        let system_prompt = render_system_prompt(&prompt_state);
        PromptSession { model, agent_dir, include_defaults, templates, prompt_state, system_prompt }
    }

    /// Current templates.
    pub fn templates(&self) -> (r: &[PromptTemplate])
        ensures
            r@ == self.templates_view(),
    {
        self.templates.as_slice()
    }

    /// Current skills.
    pub fn skills(&self) -> (r: &[Skill])
        ensures
            r@ == self.state().skills@,
    {
        self.prompt_state.skills.as_slice()
    }

    /// The system prompt derived from the current state.
    pub fn system_prompt(&self) -> (r: &str)
        requires
            self.wf(),
        ensures
            r@ == crate::system_prompt::system_prompt(self.state()),
    {
        self.system_prompt.as_str()
    }

    fn rebuild_system_prompt(&mut self)
        ensures
            final(self).wf(),
            final(self).state() == old(self).state(),
            final(self).templates_view() == old(self).templates_view(),
            final(self).model_view() == old(self).model_view(),
            final(self).agent_dir_view() == old(self).agent_dir_view(),
            final(self).include_defaults() == old(self).include_defaults(),
    {
        self.system_prompt = render_system_prompt(&self.prompt_state);
    }

    /// Replace the templates and skills with freshly loaded ones and
    /// rebuild the system prompt; the other prompt inputs stay.
    pub fn reload_resources(&mut self, templates: Vec<PromptTemplate>, skills: Vec<Skill>)
        ensures
            final(self).wf(),
            final(self).templates_view() == templates@,
            final(self).state() == (BuildSystemPromptOptions { skills, ..old(self).state() }),
            final(self).model_view() == old(self).model_view(),
            final(self).agent_dir_view() == old(self).agent_dir_view(),
            final(self).include_defaults() == old(self).include_defaults(),
    {
        self.templates = templates;
        self.prompt_state.skills = skills;
        self.rebuild_system_prompt();
    }

    /// Expand a prompt: a `/skill:name` command for a known skill becomes
    /// the skill (`skill_content` is the content of that skill's file, as
    /// read by the caller, `None` when it could not be read); any other
    /// text goes through template expansion.
    pub fn expand(&self, text: &str, skill_content: Option<&str>) -> (r: String)
        ensures
            r@ == prompt_expansion(
                text@,
                self.state().skills@,
                self.templates_view(),
                opt_view(skill_content),
            ),
    {
        let after_skills = expand_skill_command(text, self.prompt_state.skills.as_slice(), skill_content);
        let a = chars_of(after_skills.as_str());
        let t = chars_of(text);
        if chars_eq(a.as_slice(), t.as_slice()) {
            expand_prompt_template(text, self.templates.as_slice())
        } else {
            after_skills
        }
    }

    /// Whether a known skill or template answers this slash input.
    pub fn answers(&self, text: &str) -> (r: bool)
        ensures
            r == (skill_target(text@, self.state().skills@) is Some || selected_template(
                text@,
                self.templates_view(),
            ) is Some),
    {
        skill_command_target(text, self.prompt_state.skills.as_slice()).is_some() || selects_template(
            text,
            self.templates.as_slice(),
        )
    }

    /// Switch the model used for the following runs.
    pub fn switch_model(&mut self, model: ModelSummary)
        ensures
            final(self).model_view() == model,
            final(self).state() == old(self).state(),
            final(self).templates_view() == old(self).templates_view(),
            final(self).prompt() == old(self).prompt(),
            final(self).agent_dir_view() == old(self).agent_dir_view(),
            final(self).include_defaults() == old(self).include_defaults(),
    {
        self.model = model;
    }

    /// The current model.
    pub fn model(&self) -> (r: &ModelSummary)
        ensures
            *r == self.model_view(),
    {
        &self.model
    }

    /// Add a context file and rebuild the system prompt; everything else
    /// the prompt is derived from stays.
    pub fn add_context_file(&mut self, path: String, content: String)
        ensures
            final(self).wf(),
            final(self).state().context_files@ == old(self).state().context_files@.push(
                ContextFile { path, content },
            ),
            final(self).state() == (BuildSystemPromptOptions {
                context_files: final(self).state().context_files,
                ..old(self).state()
            }),
            final(self).templates_view() == old(self).templates_view(),
            final(self).model_view() == old(self).model_view(),
            final(self).agent_dir_view() == old(self).agent_dir_view(),
            final(self).include_defaults() == old(self).include_defaults(),
    {
        self.prompt_state.context_files.push(ContextFile { path, content });
        self.rebuild_system_prompt();
    }

    /// The configuration directory for global resources.
    pub fn agent_dir(&self) -> (r: &str)
        ensures
            r@ == self.agent_dir_view(),
    {
        self.agent_dir.as_str()
    }

    /// The working directory.
    pub fn cwd(&self) -> (r: &str)
        ensures
            r@ == self.state().cwd@,
    {
        self.prompt_state.cwd.as_str()
    }

    /// Whether the default resource locations are searched.
    pub fn uses_default_locations(&self) -> (r: bool)
        ensures
            r == self.include_defaults(),
    {
        self.include_defaults
    }
}

} // verus!
