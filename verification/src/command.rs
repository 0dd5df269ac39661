//! Frontend-neutral slash commands: parsed invocations, recognition against
//! the registered names, interaction requests, structured outcomes and the
//! help listing. Commands never touch a terminal; frontends supply a
//! [`CommandInteraction`] and render the returned [`CommandResult`].

use vstd::prelude::*;

use crate::out::SessionSummary;
use crate::text::{
    append, append_decimal, append_str, char_is_whitespace, chars_eq, chars_of, decimal, is_ws, join,
    join_exec, string_from_chars, sub_chars, to_string, trim, trim_chars, trim_start, trim_start_chars,
    trim_start_index,
};

verus! {

// ── Invocation and routing ──────────────────────────────────────────────────

/// A parsed slash-command invocation.
#[derive(Debug, Clone, PartialEq, Eq)]
pub struct CommandInvocation {
    /// Command name without the leading slash.
    pub name: String,
    /// Original argument text after the command name. Only the separator
    /// whitespace is removed; whitespace inside and after the arguments stays.
    pub raw_args: String,
}

/// Length of the leading run of non-whitespace characters.
pub open spec fn word_end(s: Seq<char>) -> nat
    decreases s.len(),
{
    if s.len() == 0 || is_ws(s[0]) {
        0
    } else {
        1 + word_end(s.drop_first())
    }
}

/// The text after the slash, when the input (leading whitespace aside)
/// starts with one.
pub open spec fn slash_rest(input: Seq<char>) -> Option<Seq<char>> {
    let t = trim_start(input);
    if t.len() > 0 && t[0] == '/' {
        Some(t.drop_first())
    } else {
        None
    }
}

/// `(name, raw_args)` of a slash input: the name runs up to the first
/// whitespace and must not be empty; the arguments are the rest with the
/// separating whitespace removed.
pub open spec fn parse_invocation(input: Seq<char>) -> Option<(Seq<char>, Seq<char>)> {
    match slash_rest(input) {
        None => None,
        Some(rest) => {
            let k = word_end(rest);
            if k == 0 {
                None
            } else {
                Some((rest.take(k as int), trim_start(rest.skip(k as int))))
            }
        },
    }
}

proof fn lemma_word_end_bound(s: Seq<char>)
    ensures
        word_end(s) <= s.len(),
        forall|i: int| 0 <= i < word_end(s) ==> !is_ws(#[trigger] s[i]),
    decreases s.len(),
{
    if s.len() > 0 && !is_ws(s[0]) {
        lemma_word_end_bound(s.drop_first());
        assert forall|i: int| 0 <= i < word_end(s) implies !is_ws(#[trigger] s[i]) by {
            if i > 0 {
                assert(s[i] == s.drop_first()[i - 1]);
            }
        }
    }
}

/// Index of the first whitespace character of `s` (or its length).
fn word_end_exec(s: &[char]) -> (k: usize)
    ensures
        k == word_end(s@),
{
    let mut i: usize = 0;
    assert(s@.skip(0) =~= s@);
    while i < s.len() && !char_is_whitespace(s[i])
        invariant
            i <= s@.len(),
            word_end(s@) == i + word_end(s@.skip(i as int)),
        decreases s@.len() - i,
    {
        assert(s@.skip(i as int).drop_first() =~= s@.skip(i + 1));
        i = i + 1;
    }
    i
}

impl CommandInvocation {
    pub fn new(name: &str, raw_args: &str) -> (r: Self)
        ensures
            r.name@ == name@,
            r.raw_args@ == raw_args@,
    {
        CommandInvocation { name: to_string(name), raw_args: to_string(raw_args) }
    }

    /// Parse a slash input. Leading whitespace is ignored; the argument text
    /// is otherwise kept verbatim.
    pub fn parse(input: &str) -> (r: Option<Self>)
        ensures
            match parse_invocation(input@) {
                None => r is None,
                Some(p) => r matches Some(inv) && inv.name@ == p.0 && inv.raw_args@ == p.1,
            },
    {
        let s = chars_of(input);
        let k = trim_start_index(s.as_slice());
        if k >= s.len() || s[k] != '/' {
            return None;
        }
        let rest = sub_chars(s.as_slice(), k + 1, s.len());
        assert(rest@ =~= trim_start(input@).drop_first());
        let e = word_end_exec(rest.as_slice());
        if e == 0 {
            return None;
        }
        proof {
            lemma_word_end_bound(rest@);
        }
        let name = sub_chars(rest.as_slice(), 0, e);
        let tail = sub_chars(rest.as_slice(), e, rest.len());
        let args = trim_start_chars(tail.as_slice());
        assert(name@ =~= rest@.take(e as int));
        assert(tail@ =~= rest@.skip(e as int));
        Some(
            CommandInvocation {
                name: string_from_chars(name.as_slice()),
                raw_args: string_from_chars(args.as_slice()),
            },
        )
    }

    /// Whether any non-whitespace argument text was given.
    pub fn has_args(&self) -> (r: bool)
        ensures
            r == (trim(self.raw_args@).len() > 0),
    {
        let t = trim_chars(chars_of(self.raw_args.as_str()).as_slice());
        t.len() > 0
    }

    /// The argument text without surrounding whitespace.
    pub fn trimmed_args(&self) -> (r: String)
        ensures
            r@ == trim(self.raw_args@),
    {
        let t = trim_chars(chars_of(self.raw_args.as_str()).as_slice());
        string_from_chars(t.as_slice())
    }
}

/// The result of recognition alone.
#[derive(Debug, Clone, PartialEq, Eq)]
pub enum CommandMatch {
    NotSlash,
    Known(CommandInvocation),
    UnknownSlash(CommandInvocation),
}

/// Input routing shared by the line frontend and the terminal UI.
#[derive(Debug, Clone, PartialEq, Eq)]
pub enum InputRoute {
    Command(CommandInvocation),
    AgentPrompt { original: String, expanded: String },
    UnknownSlash { name: String },
}


// ── Interaction port ────────────────────────────────────────────────────────

#[derive(Debug, Clone, PartialEq, Eq)]
pub struct SelectRequest {
    pub prompt: String,
    pub options: Vec<String>,
    pub help: Option<String>,
}

#[derive(Debug, Clone, PartialEq, Eq)]
pub struct InputRequest {
    pub prompt: String,
    pub default: Option<String>,
    pub help: Option<String>,
}

#[derive(Debug, Clone, PartialEq, Eq)]
pub enum InteractionResult<T> {
    Value(T),
    Cancelled,
    Unavailable { message: String },
}

/// Port through which a command asks the user to choose or type something.
/// Terminal adapters live with the frontends; an `Err` reports a failure of
/// the interaction itself.
pub trait CommandInteraction {
    fn is_available(&self) -> bool;

    fn select(&mut self, request: SelectRequest) -> Result<InteractionResult<String>, String>;

    fn input(&mut self, request: InputRequest) -> Result<InteractionResult<String>, String>;
}

/// The request's help text, or `fallback` when it has none.
pub open spec fn help_or(help: Option<String>, fallback: Seq<char>) -> Seq<char> {
    match help {
        Some(h) => h@,
        None => fallback,
    }
}

/// Interaction used where no picker exists: every request is answered
/// `Unavailable`, with the request's help text as the message.
#[derive(Debug, Default, Clone, Copy)]
pub struct UnavailableCommandInteraction;

impl CommandInteraction for UnavailableCommandInteraction {
    fn is_available(&self) -> (r: bool)
        ensures
            !r,
    {
        false
    }

    fn select(&mut self, request: SelectRequest) -> (r: Result<InteractionResult<String>, String>)
        ensures
            r matches Ok(InteractionResult::Unavailable { message }) && message@ == help_or(
                request.help,
                "Interactive selection is not available yet."@,
            ),
    {
        let message = match request.help {
            Some(h) => h,
            None => to_string("Interactive selection is not available yet."),
        };
        Ok(InteractionResult::Unavailable { message })
    }

    fn input(&mut self, request: InputRequest) -> (r: Result<InteractionResult<String>, String>)
        ensures
            r matches Ok(InteractionResult::Unavailable { message }) && message@ == help_or(
                request.help,
                "Interactive input is not available yet."@,
            ),
    {
        let message = match request.help {
            Some(h) => h,
            None => to_string("Interactive input is not available yet."),
        };
        Ok(InteractionResult::Unavailable { message })
    }
}

/// A deterministic interaction double: it records every request and
/// answers with the last remaining queued result.
#[derive(Debug, Default)]
pub struct MockCommandInteraction {
    pub select_results: Vec<InteractionResult<String>>,
    pub input_results: Vec<InteractionResult<String>>,
    pub select_requests: Vec<SelectRequest>,
    pub input_requests: Vec<InputRequest>,
}

impl MockCommandInteraction {
    pub fn new(
        select_results: Vec<InteractionResult<String>>,
        input_results: Vec<InteractionResult<String>>,
    ) -> (m: Self)
        ensures
            m.select_results == select_results,
            m.input_results == input_results,
            m.select_requests@.len() == 0,
            m.input_requests@.len() == 0,
    {
        MockCommandInteraction {
            select_results,
            input_results,
            select_requests: Vec::new(),
            input_requests: Vec::new(),
        }
    }
}

impl CommandInteraction for MockCommandInteraction {
    fn is_available(&self) -> (r: bool)
        ensures
            r,
    {
        true
    }

    fn select(&mut self, request: SelectRequest) -> (r: Result<InteractionResult<String>, String>)
        ensures
            final(self).select_requests@ == old(self).select_requests@.push(request),
            final(self).input_results == old(self).input_results,
            final(self).input_requests == old(self).input_requests,
            old(self).select_results@.len() > 0 ==> r == Ok::<InteractionResult<String>, String>(
                old(self).select_results@.last(),
            ) && final(self).select_results@ == old(self).select_results@.drop_last(),
            old(self).select_results@.len() == 0 ==> (r matches Err(e) && e@
                == "MockCommandInteraction: no select result"@),
            old(self).select_results@.len() == 0 ==> final(self).select_results@.len() == 0,
    {
        self.select_requests.push(request);
        match self.select_results.pop() {
            Some(v) => Ok(v),
            None => Err(to_string("MockCommandInteraction: no select result")),
        }
    }

    fn input(&mut self, request: InputRequest) -> (r: Result<InteractionResult<String>, String>)
        ensures
            final(self).input_requests@ == old(self).input_requests@.push(request),
            final(self).select_results == old(self).select_results,
            final(self).select_requests == old(self).select_requests,
            old(self).input_results@.len() > 0 ==> r == Ok::<InteractionResult<String>, String>(
                old(self).input_results@.last(),
            ) && final(self).input_results@ == old(self).input_results@.drop_last(),
            old(self).input_results@.len() == 0 ==> (r matches Err(e) && e@
                == "MockCommandInteraction: no input result"@),
            old(self).input_results@.len() == 0 ==> final(self).input_results@.len() == 0,
    {
        self.input_requests.push(request);
        match self.input_results.pop() {
            Some(v) => Ok(v),
            None => Err(to_string("MockCommandInteraction: no input result")),
        }
    }
}

/// An interaction double that always reports a failure of the interaction.
#[derive(Debug, Clone)]
pub struct FailingCommandInteraction {
    pub message: String,
}

impl FailingCommandInteraction {
    pub fn new(message: &str) -> (f: Self)
        ensures
            f.message@ == message@,
    {
        FailingCommandInteraction { message: to_string(message) }
    }
}

impl CommandInteraction for FailingCommandInteraction {
    fn is_available(&self) -> (r: bool)
        ensures
            r,
    {
        true
    }

    fn select(&mut self, request: SelectRequest) -> (r: Result<InteractionResult<String>, String>)
        ensures
            r matches Err(e) && e@ == old(self).message@,
            *final(self) == *old(self),
    {
        Err(to_string(self.message.as_str()))
    }

    fn input(&mut self, request: InputRequest) -> (r: Result<InteractionResult<String>, String>)
        ensures
            r matches Err(e) && e@ == old(self).message@,
            *final(self) == *old(self),
    {
        Err(to_string(self.message.as_str()))
    }
}

// ── Command outcomes ────────────────────────────────────────────────────────

#[derive(Debug, Clone, PartialEq, Eq)]
pub enum CommandResult {
    Message(String),
    Error(String),
    Help(Vec<CommandHelpItem>),
    ModelChanged { model: String },
    Sessions { sessions: Vec<SessionSummary>, skipped: usize },
}

#[derive(Debug, Clone, PartialEq, Eq)]
pub struct CommandHelpItem {
    pub name: String,
    pub description: String,
}

#[derive(Debug, Clone, Copy, PartialEq, Eq, Structural)]
pub enum CommandControl {
    Continue,
    Quit,
}

/// What a command produced for display (if anything) and whether the
/// frontend should keep going.
#[derive(Debug, Clone, PartialEq, Eq)]
pub struct CommandOutcome {
    pub result: Option<CommandResult>,
    pub control: CommandControl,
}

/// A command result by the text it carries.
pub enum CommandResultView {
    Message(Seq<char>),
    Error(Seq<char>),
    Help(Seq<(Seq<char>, Seq<char>)>),
    ModelChanged(Seq<char>),
    Sessions(Seq<(Seq<char>, Seq<char>, usize, Seq<char>)>, usize),
}

pub open spec fn summary_view(s: SessionSummary) -> (Seq<char>, Seq<char>, usize, Seq<char>) {
    (s.id@, s.model@, s.msg_count, s.created@)
}

pub open spec fn result_view(r: CommandResult) -> CommandResultView {
    match r {
        CommandResult::Message(m) => CommandResultView::Message(m@),
        CommandResult::Error(m) => CommandResultView::Error(m@),
        CommandResult::Help(items) => CommandResultView::Help(items@.map_values(|i: CommandHelpItem| item_view(i))),
        CommandResult::ModelChanged { model } => CommandResultView::ModelChanged(model@),
        CommandResult::Sessions { sessions, skipped } => CommandResultView::Sessions(
            sessions@.map_values(|s: SessionSummary| summary_view(s)),
            skipped,
        ),
    }
}

/// An outcome by the text it carries and its control.
pub open spec fn outcome_view(o: CommandOutcome) -> (Option<CommandResultView>, CommandControl) {
    (
        match o.result {
            Some(r) => Some(result_view(r)),
            None => None,
        },
        o.control,
    )
}

fn copy_help_items(v: &Vec<CommandHelpItem>) -> (r: Vec<CommandHelpItem>)
    ensures
        r@.map_values(|i: CommandHelpItem| item_view(i)) == v@.map_values(|i: CommandHelpItem| item_view(i)),
{
    let mut r: Vec<CommandHelpItem> = Vec::new();
    let mut k: usize = 0;
    while k < v.len()
        invariant
            0 <= k <= v@.len(),
            r@.len() == k,
            forall|j: int| 0 <= j < k ==> #[trigger] item_view(r@[j]) == item_view(v@[j]),
        decreases v@.len() - k,
    {
        r.push(CommandHelpItem { name: v[k].name.clone(), description: v[k].description.clone() });
        k = k + 1;
    }
    assert(r@.map_values(|i: CommandHelpItem| item_view(i)) =~= v@.map_values(|i: CommandHelpItem| item_view(i)));
    r
}

fn copy_summaries(v: &Vec<SessionSummary>) -> (r: Vec<SessionSummary>)
    ensures
        r@.map_values(|s: SessionSummary| summary_view(s)) == v@.map_values(|s: SessionSummary| summary_view(s)),
{
    let mut r: Vec<SessionSummary> = Vec::new();
    let mut k: usize = 0;
    while k < v.len()
        invariant
            0 <= k <= v@.len(),
            r@.len() == k,
            forall|j: int| 0 <= j < k ==> #[trigger] summary_view(r@[j]) == summary_view(v@[j]),
        decreases v@.len() - k,
    {
        let s = &v[k];
        r.push(
            SessionSummary {
                id: s.id.clone(),
                model: s.model.clone(),
                msg_count: s.msg_count,
                created: s.created.clone(),
            },
        );
        k = k + 1;
    }
    assert(r@.map_values(|s: SessionSummary| summary_view(s)) =~= v@.map_values(|s: SessionSummary| summary_view(s)));
    r
}

impl CommandOutcome {
    /// A copy of the outcome.
    pub fn duplicate(&self) -> (c: Self)
        ensures
            outcome_view(c) == outcome_view(*self),
    {
        let result = match &self.result {
            None => None,
            Some(CommandResult::Message(m)) => Some(CommandResult::Message(m.clone())),
            Some(CommandResult::Error(m)) => Some(CommandResult::Error(m.clone())),
            Some(CommandResult::Help(items)) => Some(CommandResult::Help(copy_help_items(items))),
            Some(CommandResult::ModelChanged { model }) => Some(CommandResult::ModelChanged { model: model.clone() }),
            Some(CommandResult::Sessions { sessions, skipped }) => Some(
                CommandResult::Sessions { sessions: copy_summaries(sessions), skipped: *skipped },
            ),
        };
        CommandOutcome { result, control: self.control }
    }

    pub fn message(message: &str) -> (o: Self)
        ensures
            o.result matches Some(CommandResult::Message(m)) && m@ == message@,
            o.control == CommandControl::Continue,
    {
        CommandOutcome {
            result: Some(CommandResult::Message(to_string(message))),
            control: CommandControl::Continue,
        }
    }

    pub fn none() -> (o: Self)
        ensures
            o.result is None,
            o.control == CommandControl::Continue,
    {
        CommandOutcome { result: None, control: CommandControl::Continue }
    }

    pub fn quit() -> (o: Self)
        ensures
            o.result is None,
            o.control == CommandControl::Quit,
    {
        CommandOutcome { result: None, control: CommandControl::Quit }
    }
}

// ── The decisions of `/model` and `/context` ───────────────────────────────

/// The models, one per line, each indented by two spaces.
pub open spec fn model_lines(ids: Seq<Seq<char>>) -> Seq<char> {
    join(ids.map_values(|id: Seq<char>| "  "@ + id), "\n"@)
}

/// What `/model` does with its arguments, before any switch.
pub enum ModelStep {
    /// The model named in the arguments.
    Chosen(String),
    /// Ask the user to pick one of the models.
    Ask,
    /// Stop without a result (the command was cancelled).
    Nothing,
    /// Answer at once.
    Answer(CommandResult),
}

pub enum ModelStepView {
    Chosen(Seq<char>),
    Ask,
    Nothing,
    Answer(CommandResultView),
}

pub open spec fn model_step_view(s: ModelStep) -> ModelStepView {
    match s {
        ModelStep::Chosen(m) => ModelStepView::Chosen(m@),
        ModelStep::Ask => ModelStepView::Ask,
        ModelStep::Nothing => ModelStepView::Nothing,
        ModelStep::Answer(r) => ModelStepView::Answer(result_view(r)),
    }
}

/// A named model must be one of the provider's; with no name, a provider
/// without a model list answers at once, and otherwise the user is asked
/// (unless the command was cancelled).
pub open spec fn model_step(
    ids: Seq<Seq<char>>,
    current: Seq<char>,
    raw_args: Seq<char>,
    picker_available: bool,
    cancelled: bool,
) -> ModelStepView {
    let requested = trim(raw_args);
    if requested.len() > 0 {
        if ids.contains(requested) {
            ModelStepView::Chosen(requested)
        } else {
            ModelStepView::Answer(
                CommandResultView::Error(
                    "Model '"@ + requested + "' not found. Available models: "@ + join(ids, ", "@),
                ),
            )
        }
    } else if ids.len() == 0 && !picker_available {
        ModelStepView::Answer(CommandResultView::Message(model_picker_hint()))
    } else if ids.len() == 0 {
        ModelStepView::Answer(
            CommandResultView::Message(
                "Current model: "@ + current
                    + ". This provider doesn't support runtime model switching."@,
            ),
        )
    } else if cancelled {
        ModelStepView::Nothing
    } else {
        ModelStepView::Ask
    }
}

pub open spec fn model_picker_hint() -> Seq<char> {
    "TUI model picker is not available yet.\nUse: /model <model-id>\n\nAvailable models:\n"@
}

fn ids_chars(ids: &[String]) -> (v: Vec<Vec<char>>)
    ensures
        v@.map_values(|p: Vec<char>| p@) == ids@.map_values(|s: String| s@),
{
    let mut v: Vec<Vec<char>> = Vec::new();
    let mut i: usize = 0;
    while i < ids.len()
        invariant
            0 <= i <= ids@.len(),
            v@.map_values(|p: Vec<char>| p@) == ids@.take(i as int).map_values(|s: String| s@),
        decreases ids@.len() - i,
    {
        let ghost before = v@.map_values(|p: Vec<char>| p@);
        let c = chars_of(ids[i].as_str());
        assert(c@ == ids@[i as int]@);
        v.push(c);
        assert(v@.map_values(|p: Vec<char>| p@) =~= before.push(ids@[i as int]@));
        assert(ids@.take(i + 1).map_values(|s: String| s@) =~= ids@.take(i as int).map_values(
            |s: String| s@,
        ).push(ids@[i as int]@));
        i = i + 1;
    }
    assert(ids@.take(ids@.len() as int) =~= ids@);
    v
}

/// Decide what `/model` does: `ids` are the provider's models, `current`
/// the model in use.
pub fn model_command_step(
    ids: &[String],
    current: &str,
    raw_args: &str,
    picker_available: bool,
    cancelled: bool,
) -> (s: ModelStep)
    ensures
        model_step_view(s) == model_step(
            ids@.map_values(|x: String| x@),
            current@,
            raw_args@,
            picker_available,
            cancelled,
        ),
{
    let ghost iv = ids@.map_values(|x: String| x@);
    let requested = trim_chars(chars_of(raw_args).as_slice());
    if requested.len() > 0 {
        let mut i: usize = 0;
        while i < ids.len()
            invariant
                0 <= i <= ids@.len() == iv.len(),
                iv == ids@.map_values(|x: String| x@),
                forall|j: int| 0 <= j < i ==> iv[j] != requested@,
                requested@ == trim(raw_args@),
                requested@.len() > 0,
            decreases ids@.len() - i,
        {
            let c = chars_of(ids[i].as_str());
            if chars_eq(c.as_slice(), requested.as_slice()) {
                assert(iv[i as int] == requested@);
                assert(iv.contains(requested@));
                return ModelStep::Chosen(string_from_chars(requested.as_slice()));
            }
            i = i + 1;
        }
        assert(!iv.contains(requested@));
        let parts = ids_chars(ids);
        let sep = vec![',', ' '];
        assert(sep@ =~= ", "@) by {
            reveal_strlit(", ");
        }
        let listed = join_exec(parts.as_slice(), sep.as_slice());
        let mut out: Vec<char> = Vec::new();
        append_str(&mut out, "Model '");
        append(&mut out, requested.as_slice());
        append_str(&mut out, "' not found. Available models: ");
        append(&mut out, listed.as_slice());
        return ModelStep::Answer(CommandResult::Error(string_from_chars(out.as_slice())));
    }
    if ids.len() == 0 && !picker_available {
        ModelStep::Answer(
            CommandResult::Message(
                to_string(
                    "TUI model picker is not available yet.\nUse: /model <model-id>\n\nAvailable models:\n",
                ),
            ),
        )
    } else if ids.len() == 0 {
        let mut out: Vec<char> = Vec::new();
        append_str(&mut out, "Current model: ");
        append_str(&mut out, current);
        append_str(&mut out, ". This provider doesn't support runtime model switching.");
        ModelStep::Answer(CommandResult::Message(string_from_chars(out.as_slice())))
    } else if cancelled {
        ModelStep::Nothing
    } else {
        ModelStep::Ask
    }
}

/// The models one per line, indented by two spaces.
pub fn model_list_text(ids: &[String]) -> (r: String)
    ensures
        r@ == model_lines(ids@.map_values(|x: String| x@)),
{
    let ghost iv = ids@.map_values(|x: String| x@);
    let mut lines: Vec<Vec<char>> = Vec::new();
    let mut i: usize = 0;
    while i < ids.len()
        invariant
            0 <= i <= ids@.len() == iv.len(),
            iv == ids@.map_values(|x: String| x@),
            lines@.map_values(|p: Vec<char>| p@) == iv.take(i as int).map_values(
                |id: Seq<char>| "  "@ + id,
            ),
        decreases ids@.len() - i,
    {
        let ghost before = lines@.map_values(|p: Vec<char>| p@);
        let mut line: Vec<char> = Vec::new();
        append_str(&mut line, "  ");
        append_str(&mut line, ids[i].as_str());
        assert(iv[i as int] == ids@[i as int]@);
        assert(line@ =~= "  "@ + iv[i as int]);
        lines.push(line);
        assert(lines@.map_values(|p: Vec<char>| p@) =~= before.push("  "@ + iv[i as int]));
        assert(iv.take(i + 1).map_values(|id: Seq<char>| "  "@ + id) =~= iv.take(i as int).map_values(
            |id: Seq<char>| "  "@ + id,
        ).push("  "@ + iv[i as int]));
        i = i + 1;
    }
    assert(iv.take(iv.len() as int) =~= iv);
    let nl = vec!['\n'];
    assert(nl@ =~= "\n"@) by {
        reveal_strlit("\n");
    }
    string_from_chars(join_exec(lines.as_slice(), nl.as_slice()).as_slice())
}

/// The help shown with the model picker: how to name a model, then the
/// models.
pub fn model_picker_help(ids: &[String]) -> (r: String)
    ensures
        r@ == model_picker_hint() + model_lines(ids@.map_values(|x: String| x@)),
{
    let mut out: Vec<char> = Vec::new();
    append_str(&mut out, "TUI model picker is not available yet.\nUse: /model <model-id>\n\nAvailable models:\n");
    append_str(&mut out, model_list_text(ids).as_str());
    string_from_chars(out.as_slice())
}

/// The answer when the picker cannot be shown: its message, then the models.
pub fn model_picker_unavailable(message: &str, ids: &[String]) -> (r: CommandOutcome)
    ensures
        outcome_view(r) == (
            Some(
                CommandResultView::Message(
                    message@ + "\n\nAvailable models:\n"@ + model_lines(ids@.map_values(|x: String| x@)),
                ),
            ),
            CommandControl::Continue,
        ),
{
    let mut out: Vec<char> = Vec::new();
    append_str(&mut out, message);
    append_str(&mut out, "\n\nAvailable models:\n");
    append_str(&mut out, model_list_text(ids).as_str());
    CommandOutcome { result: Some(CommandResult::Message(string_from_chars(out.as_slice()))), control: CommandControl::Continue }
}

/// The outcome of a chosen model: already in use, or the switch.
pub fn model_chosen(selected: &str, current: &str) -> (r: CommandOutcome)
    ensures
        outcome_view(r) == (
            Some(
                if selected@ == current@ {
                    CommandResultView::Message("Already using "@ + selected@)
                } else {
                    CommandResultView::ModelChanged(selected@)
                },
            ),
            CommandControl::Continue,
        ),
{
    let s = chars_of(selected);
    let c = chars_of(current);
    if chars_eq(s.as_slice(), c.as_slice()) {
        let mut out: Vec<char> = Vec::new();
        append_str(&mut out, "Already using ");
        append(&mut out, s.as_slice());
        CommandOutcome { result: Some(CommandResult::Message(string_from_chars(out.as_slice()))), control: CommandControl::Continue }
    } else {
        CommandOutcome {
            result: Some(CommandResult::ModelChanged { model: string_from_chars(s.as_slice()) }),
            control: CommandControl::Continue,
        }
    }
}

/// The report of `/context`: the path as given and the file's size in
/// whole kilobytes.
pub open spec fn context_added(path: Seq<char>, size_bytes: nat) -> Seq<char> {
    "Added "@ + path + " ("@ + decimal(size_bytes / 1024) + "KB) to system prompt"@
}

pub fn context_added_message(path: &str, size_bytes: usize) -> (r: CommandOutcome)
    ensures
        outcome_view(r) == (
            Some(CommandResultView::Message(context_added(path@, size_bytes as nat))),
            CommandControl::Continue,
        ),
{
    let mut out: Vec<char> = Vec::new();
    append_str(&mut out, "Added ");
    append_str(&mut out, path);
    append_str(&mut out, " (");
    append_decimal(&mut out, (size_bytes / 1024) as u64);
    append_str(&mut out, "KB) to system prompt");
    CommandOutcome { result: Some(CommandResult::Message(string_from_chars(out.as_slice()))), control: CommandControl::Continue }
}

// ── Built-in commands and the registry ─────────────────────────────────────

/// A named slash command with a one-line description.
pub trait Command {
    fn name(&self) -> &'static str;

    fn description(&self) -> &'static str;
}

pub struct ExitCommand;

pub struct QuitCommand;

pub struct ModelCommand;

pub struct ContextCommand;

pub struct SessionCommand;

pub struct TreeCommand;

pub struct ListSessionsCommand;

impl Command for ExitCommand {
    fn name(&self) -> (r: &'static str)
        ensures
            r@ == "exit"@,
    {
        "exit"
    }

    fn description(&self) -> (r: &'static str)
        ensures
            r@ == "Exit the REPL"@,
    {
        "Exit the REPL"
    }
}

impl Command for QuitCommand {
    fn name(&self) -> (r: &'static str)
        ensures
            r@ == "quit"@,
    {
        "quit"
    }

    fn description(&self) -> (r: &'static str)
        ensures
            r@ == "Exit the REPL"@,
    {
        "Exit the REPL"
    }
}

impl Command for ModelCommand {
    fn name(&self) -> (r: &'static str)
        ensures
            r@ == "model"@,
    {
        "model"
    }

    fn description(&self) -> (r: &'static str)
        ensures
            r@ == "Switch model"@,
    {
        "Switch model"
    }
}

impl Command for ContextCommand {
    fn name(&self) -> (r: &'static str)
        ensures
            r@ == "context"@,
    {
        "context"
    }

    fn description(&self) -> (r: &'static str)
        ensures
            r@ == "Inject a file into the system prompt"@,
    {
        "Inject a file into the system prompt"
    }
}

impl Command for SessionCommand {
    fn name(&self) -> (r: &'static str)
        ensures
            r@ == "session"@,
    {
        "session"
    }

    fn description(&self) -> (r: &'static str)
        ensures
            r@ == "Show current session information"@,
    {
        "Show current session information"
    }
}

impl Command for TreeCommand {
    fn name(&self) -> (r: &'static str)
        ensures
            r@ == "tree"@,
    {
        "tree"
    }

    fn description(&self) -> (r: &'static str)
        ensures
            r@ == "Show session tree structure"@,
    {
        "Show session tree structure"
    }
}

impl Command for ListSessionsCommand {
    fn name(&self) -> (r: &'static str)
        ensures
            r@ == "list-sessions"@,
    {
        "list-sessions"
    }

    fn description(&self) -> (r: &'static str)
        ensures
            r@ == "List all saved sessions"@,
    {
        "List all saved sessions"
    }
}

impl ExitCommand {
    /// Leaving produces no message, only the `Quit` control.
    pub fn execute(&self) -> (o: CommandOutcome)
        ensures
            o.result is None,
            o.control == CommandControl::Quit,
    {
        CommandOutcome::quit()
    }
}

impl QuitCommand {
    /// Leaving produces no message, only the `Quit` control.
    pub fn execute(&self) -> (o: CommandOutcome)
        ensures
            o.result is None,
            o.control == CommandControl::Quit,
    {
        CommandOutcome::quit()
    }
}

pub open spec fn item_view(item: CommandHelpItem) -> (Seq<char>, Seq<char>) {
    (item.name@, item.description@)
}

/// No two entries share a name.
pub open spec fn names_distinct(es: Seq<(Seq<char>, Seq<char>)>) -> bool {
    forall|i: int, j: int| 0 <= i < j < es.len() ==> es[i].0 != es[j].0
}

pub open spec fn has_name(es: Seq<(Seq<char>, Seq<char>)>, name: Seq<char>) -> bool {
    exists|i: int| 0 <= i < es.len() && es[i].0 == name
}

/// Names and descriptions of the registered commands, in registration
/// order, and whether the built-in `/help` is recognised.
pub struct CommandRegistry {
    items: Vec<CommandHelpItem>,
    help_enabled: bool,
}

impl CommandRegistry {
    /// `(name, description)` of each registered command, in order.
    pub closed spec fn entries(&self) -> Seq<(Seq<char>, Seq<char>)> {
        self.items@.map_values(|item: CommandHelpItem| item_view(item))
    }

    pub closed spec fn help_enabled(&self) -> bool {
        self.help_enabled
    }

    pub open spec fn wf(&self) -> bool {
        names_distinct(self.entries())
    }

    /// Whether `name` is recognised as a command.
    pub open spec fn knows(&self, name: Seq<char>) -> bool {
        (name == "help"@ && self.help_enabled()) || has_name(self.entries(), name)
    }

    /// The help listing: the `/help` entry first when enabled, then the
    /// registered commands in order.
    pub open spec fn listed(&self) -> Seq<(Seq<char>, Seq<char>)> {
        if self.help_enabled() {
            seq![("help"@, "Show this help message"@)] + self.entries()
        } else {
            self.entries()
        }
    }

    pub fn new() -> (r: Self)
        ensures
            r.wf(),
            r.entries().len() == 0,
            !r.help_enabled(),
    {
        let r = CommandRegistry { items: Vec::new(), help_enabled: false };
        assert(r.entries() =~= Seq::<(Seq<char>, Seq<char>)>::empty());
        r
    }

    /// Register a command. A command of the same name is replaced in place;
    /// otherwise the command is appended.
    pub fn register(&mut self, name: &str, description: &str)
        requires
            old(self).wf(),
        ensures
            final(self).wf(),
            final(self).help_enabled() == old(self).help_enabled(),
            forall|i: int|
                0 <= i < old(self).entries().len() && old(self).entries()[i].0 == name@
                    ==> final(self).entries() == old(self).entries().update(
                    i,
                    (name@, description@),
                ),
            !has_name(old(self).entries(), name@) ==> final(self).entries() == old(
                self,
            ).entries().push((name@, description@)),
    {
        let item = CommandHelpItem { name: to_string(name), description: to_string(description) };
        let ghost iv = item_view(item);
        assert(iv == (name@, description@));
        let n = chars_of(name);
        let mut i: usize = 0;
        while i < self.items.len()
            invariant
                i <= self.items@.len(),
                n@ == name@,
                iv == item_view(item),
                iv == (name@, description@),
                self.items@ == old(self).items@,
                self.help_enabled == old(self).help_enabled,
                names_distinct(old(self).entries()),
                forall|j: int| 0 <= j < i ==> self.items@[j].name@ != name@,
            decreases self.items@.len() - i,
        {
            let m = chars_of(self.items[i].name.as_str());
            if crate::text::chars_eq(m.as_slice(), n.as_slice()) {
                let ghost before = self.entries();
                assert(before[i as int].0 == name@);
                self.items.set(i, item);
                proof {
                    assert(self.entries() =~= before.update(i as int, iv));
                    assert forall|k: int|
                        0 <= k < before.len() && before[k].0 == name@ implies k == i by {
                        if k < i {
                            assert(before[k].0 != before[i as int].0);
                        } else if k > i {
                            assert(before[i as int].0 != before[k].0);
                        }
                    }
                }
                return;
            }
            i = i + 1;
        }
        let ghost before = self.entries();
        proof {
            assert(!has_name(before, name@)) by {
                if has_name(before, name@) {
                    let k = choose|k: int| 0 <= k < before.len() && before[k].0 == name@;
                    assert(self.items@[k].name@ == name@);
                }
            }
        }
        self.items.push(item);
        proof {
            assert(self.entries() =~= before.push(iv));
        }
    }

    fn contains_name(&self, n: &[char]) -> (r: bool)
        ensures
            r == has_name(self.entries(), n@),
    {
        let mut i: usize = 0;
        while i < self.items.len()
            invariant
                i <= self.items@.len(),
                forall|j: int| 0 <= j < i ==> self.entries()[j].0 != n@,
            decreases self.items@.len() - i,
        {
            let m = chars_of(self.items[i].name.as_str());
            if crate::text::chars_eq(m.as_slice(), n) {
                assert(self.entries()[i as int].0 == n@);
                return true;
            }
            i = i + 1;
        }
        false
    }

    /// Recognise `/help` from now on.
    pub fn register_help(&mut self)
        ensures
            final(self).help_enabled(),
            final(self).entries() == old(self).entries(),
    {
        self.help_enabled = true;
    }

    /// Recognition only: unknown slash input is handed back for the prompt
    /// resolver instead of being turned into an error here.
    pub fn resolve(&self, input: &str) -> (r: CommandMatch)
        ensures
            match parse_invocation(input@) {
                None => r is NotSlash,
                Some(p) => if self.knows(p.0) {
                    r matches CommandMatch::Known(inv) && inv.name@ == p.0 && inv.raw_args@ == p.1
                } else {
                    r matches CommandMatch::UnknownSlash(inv) && inv.name@ == p.0 && inv.raw_args@
                        == p.1
                },
            },
    {
        match CommandInvocation::parse(input) {
            None => CommandMatch::NotSlash,
            Some(invocation) => {
                let n = chars_of(invocation.name.as_str());
                let known = (self.help_enabled && crate::text::chars_eq_str(n.as_slice(), "help"))
                    || self.contains_name(n.as_slice());
                if known {
                    CommandMatch::Known(invocation)
                } else {
                    CommandMatch::UnknownSlash(invocation)
                }
            },
        }
    }

    /// The help listing as items.
    pub fn help_items(&self) -> (r: Vec<CommandHelpItem>)
        ensures
            r@.map_values(|item: CommandHelpItem| item_view(item)) == self.listed(),
    {
        let mut r: Vec<CommandHelpItem> = Vec::new();
        if self.help_enabled {
            r.push(
                CommandHelpItem {
                    name: to_string("help"),
                    description: to_string("Show this help message"),
                },
            );
        }
        let ghost start = r@.map_values(|item: CommandHelpItem| item_view(item));
        let mut i: usize = 0;
        while i < self.items.len()
            invariant
                i <= self.items@.len(),
                r@.map_values(|item: CommandHelpItem| item_view(item)) == start
                    + self.entries().take(i as int),
            decreases self.items@.len() - i,
        {
            let item = CommandHelpItem {
                name: to_string(self.items[i].name.as_str()),
                description: to_string(self.items[i].description.as_str()),
            };
            let ghost prev = r@;
            let ghost iv = item_view(item);
            assert(iv == item_view(self.items@[i as int]));
            r.push(item);
            assert(r@.map_values(|item: CommandHelpItem| item_view(item)) =~= prev.map_values(
                |item: CommandHelpItem| item_view(item),
            ).push(iv));
            assert(self.entries().take(i + 1) =~= self.entries().take(i as int).push(
                item_view(self.items@[i as int]),
            ));
            assert(r@.map_values(|item: CommandHelpItem| item_view(item)) =~= start
                + self.entries().take(i + 1));
            i = i + 1;
        }
        assert(self.entries().take(self.items@.len() as int) =~= self.entries());
        proof {
            if self.help_enabled {
                assert(start =~= seq![("help"@, "Show this help message"@)]);
            } else {
                assert(start =~= Seq::<(Seq<char>, Seq<char>)>::empty());
            }
        }
        r
    }

    /// The help listing as text.
    pub fn help_text(&self) -> (s: String)
        ensures
            s@ == help_listing(self.listed()),
    {
        let items = self.help_items();
        format_help(items.as_slice())
    }
}


/// Route input: a known command runs; other slash input goes to the agent
/// when the prompt resolver expanded it (`expansion`) and is otherwise an
/// unknown command; plain text goes to the agent unchanged.
pub fn resolve_input(input: &str, registry: &CommandRegistry, expansion: Option<String>) -> (r: InputRoute)
    ensures
        match parse_invocation(input@) {
            None => r matches InputRoute::AgentPrompt { original, expanded } && original@ == input@
                && expanded@ == input@,
            Some(p) => if registry.knows(p.0) {
                r matches InputRoute::Command(inv) && inv.name@ == p.0 && inv.raw_args@ == p.1
            } else {
                match expansion {
                    Some(e) => r matches InputRoute::AgentPrompt { original, expanded } && original@ == input@
                        && expanded@ == e@,
                    None => r matches InputRoute::UnknownSlash { name } && name@ == p.0,
                }
            },
        },
{
    match registry.resolve(input) {
        CommandMatch::Known(invocation) => InputRoute::Command(invocation),
        CommandMatch::NotSlash => InputRoute::AgentPrompt { original: to_string(input), expanded: to_string(input) },
        CommandMatch::UnknownSlash(invocation) => match expansion {
            Some(expanded) => InputRoute::AgentPrompt { original: to_string(input), expanded },
            None => InputRoute::UnknownSlash { name: invocation.name },
        },
    }
}

/// The built-in command set with `/help` enabled.
pub fn builtin_registry() -> (r: CommandRegistry)
    ensures
        r.wf(),
        r.help_enabled(),
        r.entries() == seq![
            ("exit"@, "Exit the REPL"@),
            ("quit"@, "Exit the REPL"@),
            ("model"@, "Switch model"@),
            ("context"@, "Inject a file into the system prompt"@),
            ("session"@, "Show current session information"@),
            ("tree"@, "Show session tree structure"@),
            ("list-sessions"@, "List all saved sessions"@),
        ],
{
    let mut r = CommandRegistry::new();
    r.register_help();
    proof {
        reveal_strlit("exit");
        reveal_strlit("quit");
        reveal_strlit("model");
        reveal_strlit("context");
        reveal_strlit("session");
        reveal_strlit("tree");
        reveal_strlit("list-sessions");
    }
    r.register(ExitCommand.name(), ExitCommand.description());
    assert(r.entries() =~= seq![("exit"@, "Exit the REPL"@)]);
    assert forall|i: int| 0 <= i < r.entries().len() implies r.entries()[i].0.len() > 0
        && #[trigger] r.entries()[i].0[0] != "quit"@[0] by {
        if i == 0 {}
    }
    proof {
        lemma_name_absent(r.entries(), "quit"@);
    }
    r.register(QuitCommand.name(), QuitCommand.description());
    assert(r.entries() =~= seq![("exit"@, "Exit the REPL"@), ("quit"@, "Exit the REPL"@)]);
    assert forall|i: int| 0 <= i < r.entries().len() implies r.entries()[i].0.len() > 0
        && #[trigger] r.entries()[i].0[0] != "model"@[0] by {
        if i == 0 {} else if i == 1 {}
    }
    proof {
        lemma_name_absent(r.entries(), "model"@);
    }
    r.register(ModelCommand.name(), ModelCommand.description());
    assert(r.entries() =~= seq![("exit"@, "Exit the REPL"@), ("quit"@, "Exit the REPL"@), ("model"@, "Switch model"@)]);
    assert forall|i: int| 0 <= i < r.entries().len() implies r.entries()[i].0.len() > 0
        && #[trigger] r.entries()[i].0[0] != "context"@[0] by {
        if i == 0 {} else if i == 1 {} else if i == 2 {}
    }
    proof {
        lemma_name_absent(r.entries(), "context"@);
    }
    r.register(ContextCommand.name(), ContextCommand.description());
    assert(r.entries() =~= seq![("exit"@, "Exit the REPL"@), ("quit"@, "Exit the REPL"@), ("model"@, "Switch model"@), ("context"@, "Inject a file into the system prompt"@)]);
    assert forall|i: int| 0 <= i < r.entries().len() implies r.entries()[i].0.len() > 0
        && #[trigger] r.entries()[i].0[0] != "session"@[0] by {
        if i == 0 {} else if i == 1 {} else if i == 2 {} else if i == 3 {}
    }
    proof {
        lemma_name_absent(r.entries(), "session"@);
    }
    r.register(SessionCommand.name(), SessionCommand.description());
    assert(r.entries() =~= seq![("exit"@, "Exit the REPL"@), ("quit"@, "Exit the REPL"@), ("model"@, "Switch model"@), ("context"@, "Inject a file into the system prompt"@), ("session"@, "Show current session information"@)]);
    assert forall|i: int| 0 <= i < r.entries().len() implies r.entries()[i].0.len() > 0
        && #[trigger] r.entries()[i].0[0] != "tree"@[0] by {
        if i == 0 {} else if i == 1 {} else if i == 2 {} else if i == 3 {} else if i == 4 {}
    }
    proof {
        lemma_name_absent(r.entries(), "tree"@);
    }
    r.register(TreeCommand.name(), TreeCommand.description());
    assert(r.entries() =~= seq![("exit"@, "Exit the REPL"@), ("quit"@, "Exit the REPL"@), ("model"@, "Switch model"@), ("context"@, "Inject a file into the system prompt"@), ("session"@, "Show current session information"@), ("tree"@, "Show session tree structure"@)]);
    assert forall|i: int| 0 <= i < r.entries().len() implies r.entries()[i].0.len() > 0
        && #[trigger] r.entries()[i].0[0] != "list-sessions"@[0] by {
        if i == 0 {} else if i == 1 {} else if i == 2 {} else if i == 3 {} else if i == 4 {} else if i == 5 {}
    }
    proof {
        lemma_name_absent(r.entries(), "list-sessions"@);
    }
    r.register(ListSessionsCommand.name(), ListSessionsCommand.description());
    assert(r.entries() =~= seq![("exit"@, "Exit the REPL"@), ("quit"@, "Exit the REPL"@), ("model"@, "Switch model"@), ("context"@, "Inject a file into the system prompt"@), ("session"@, "Show current session information"@), ("tree"@, "Show session tree structure"@), ("list-sessions"@, "List all saved sessions"@)]);
    r
}

proof fn lemma_name_absent(es: Seq<(Seq<char>, Seq<char>)>, name: Seq<char>)
    requires
        name.len() > 0,
        forall|i: int|
            0 <= i < es.len() ==> es[i].0.len() > 0 && #[trigger] es[i].0[0] != name[0],
    ensures
        !has_name(es, name),
{
    if has_name(es, name) {
        let k = choose|k: int| 0 <= k < es.len() && es[k].0 == name;
        assert(es[k].0[0] != name[0]);
    }
}

// ── Text helpers ────────────────────────────────────────────────────────────

/// `s` padded with spaces on the right to at least `width` characters.
pub open spec fn pad_right(s: Seq<char>, width: nat) -> Seq<char> {
    if s.len() >= width {
        s
    } else {
        s + Seq::new((width - s.len()) as nat, |_i: int| ' ')
    }
}

/// One help line: `    /name         description`.
pub open spec fn help_line(item: (Seq<char>, Seq<char>)) -> Seq<char> {
    "    /"@ + pad_right(item.0, 12) + " "@ + item.1 + "\n"@
}

pub open spec fn help_lines(items: Seq<(Seq<char>, Seq<char>)>) -> Seq<char>
    decreases items.len(),
{
    if items.len() == 0 {
        Seq::empty()
    } else {
        help_lines(items.drop_last()) + help_line(items.last())
    }
}

pub open spec fn help_tips() -> Seq<char> {
    "\n  Tips:\n"@ + "    - Up/down arrows navigate command history\n"@
        + "    - Ctrl+C at prompt exits\n"@ + "    - Ctrl+C during agent run aborts the current round\n"@
        + "    - Type any text to chat with the agent\n"@
}

/// The full help text for a listing.
pub open spec fn help_listing(items: Seq<(Seq<char>, Seq<char>)>) -> Seq<char> {
    "\n  Commands:\n"@ + help_lines(items) + help_tips()
}

pub(crate) fn append_padded(out: &mut Vec<char>, s: &[char], width: usize)
    ensures
        final(out)@ == old(out)@ + pad_right(s@, width as nat),
{
    append(out, s);
    if s.len() < width {
        let ghost mid = out@;
        let mut k: usize = s.len();
        while k < width
            invariant
                s@.len() <= k <= width,
                out@ == mid + Seq::new((k - s@.len()) as nat, |_i: int| ' '),
            decreases width - k,
        {
            out.push(' ');
            assert(out@ =~= mid + Seq::new((k + 1 - s@.len()) as nat, |_i: int| ' '));
            k = k + 1;
        }
        assert(out@ =~= old(out)@ + pad_right(s@, width as nat));
    }
}

pub(crate) fn format_help(items: &[CommandHelpItem]) -> (s: String)
    ensures
        s@ == help_listing(items@.map_values(|item: CommandHelpItem| item_view(item))),
{
    let ghost views = items@.map_values(|item: CommandHelpItem| item_view(item));
    let mut out: Vec<char> = Vec::new();
    append_str(&mut out, "\n  Commands:\n");
    let ghost head = out@;
    let mut i: usize = 0;
    while i < items.len()
        invariant
            i <= items@.len(),
            views == items@.map_values(|item: CommandHelpItem| item_view(item)),
            out@ == head + help_lines(views.take(i as int)),
        decreases items@.len() - i,
    {
        let ghost before = out@;
        append_str(&mut out, "    /");
        let n = chars_of(items[i].name.as_str());
        append_padded(&mut out, n.as_slice(), 12);
        append_str(&mut out, " ");
        append_str(&mut out, items[i].description.as_str());
        append_str(&mut out, "\n");
        assert(views.take(i + 1).drop_last() =~= views.take(i as int));
        assert(views.take(i + 1).last() == item_view(items@[i as int]));
        assert(out@ =~= before + help_line(item_view(items@[i as int])));
        i = i + 1;
    }
    assert(views.take(items@.len() as int) =~= views);
    append_str(&mut out, "\n  Tips:\n");
    append_str(&mut out, "    - Up/down arrows navigate command history\n");
    append_str(&mut out, "    - Ctrl+C at prompt exits\n");
    append_str(&mut out, "    - Ctrl+C during agent run aborts the current round\n");
    append_str(&mut out, "    - Type any text to chat with the agent\n");
    assert(out@ =~= help_listing(views));
    string_from_chars(out.as_slice())
}

/// Character-count preview of `s` in at most `max` characters, ending in
/// `...` when shortened (and `max` leaves room for it).
pub open spec fn preview(s: Seq<char>, max: nat) -> Seq<char> {
    if s.len() <= max {
        s
    } else if max <= 3 {
        s.take(max as int)
    } else {
        s.take(max - 3) + "..."@
    }
}

/// Character-count truncation used by tree previews; it never splits a
/// character.
pub fn truncate_preview(text: &str, max_chars: usize) -> (r: String)
    ensures
        r@ == preview(text@, max_chars as nat),
{
    let s = chars_of(text);
    if s.len() <= max_chars {
        return string_from_chars(s.as_slice());
    }
    if max_chars <= 3 {
        let t = sub_chars(s.as_slice(), 0, max_chars);
        return string_from_chars(t.as_slice());
    }
    let mut t = sub_chars(s.as_slice(), 0, max_chars - 3);
    append_str(&mut t, "...");
    string_from_chars(t.as_slice())
}

// ── Line reader boundary ────────────────────────────────────────────────────

/// Why a line could not be read.
#[derive(Debug, Clone, PartialEq, Eq)]
pub enum LineReadError {
    /// The user interrupted the prompt (Ctrl+C).
    Interrupted,
    /// End of input (Ctrl+D, or no more lines).
    Eof,
    /// Any other failure of the underlying reader.
    Other(String),
}

/// Source of user input lines with a history.
pub trait LineReader {
    fn readline(&mut self, prompt: &str) -> Result<String, LineReadError>;

    fn add_history_entry(&mut self, line: &str);
}

/// A line reader that hands out prepared lines and records the history.
pub struct MockLineReader {
    pub lines: Vec<String>,
    pub history: Vec<String>,
    index: usize,
}

impl MockLineReader {
    pub fn new(lines: Vec<String>) -> (r: Self)
        ensures
            r.queued() == lines@,
            r.recorded().len() == 0,
            r.position() == 0,
    {
        MockLineReader { lines, history: Vec::new(), index: 0 }
    }

    /// Number of lines handed out so far.
    pub closed spec fn position(&self) -> nat {
        self.index as nat
    }

    /// The prepared lines.
    pub closed spec fn queued(&self) -> Seq<String> {
        self.lines@
    }

    /// The history entries added so far.
    pub closed spec fn recorded(&self) -> Seq<String> {
        self.history@
    }
}

impl LineReader for MockLineReader {
    fn readline(&mut self, prompt: &str) -> (r: Result<String, LineReadError>)
        ensures
            final(self).queued() == old(self).queued(),
            final(self).recorded() == old(self).recorded(),
            old(self).position() < old(self).queued().len() ==> (r matches Ok(line) && line@ == old(
                self,
            ).queued()[old(self).position() as int]@) && final(self).position() == old(
                self,
            ).position() + 1,
            old(self).position() >= old(self).queued().len() ==> r == Err::<String, LineReadError>(
                LineReadError::Eof,
            ) && final(self).position() == old(self).position(),
    {
        if self.index < self.lines.len() {
            let line = to_string(self.lines[self.index].as_str());
            self.index = self.index + 1;
            Ok(line)
        } else {
            Err(LineReadError::Eof)
        }
    }

    fn add_history_entry(&mut self, line: &str)
        ensures
            final(self).queued() == old(self).queued(),
            final(self).position() == old(self).position(),
            final(self).recorded().len() == old(self).recorded().len() + 1,
            final(self).recorded().last()@ == line@,
            final(self).recorded().drop_last() == old(self).recorded(),
    {
        self.history.push(to_string(line));
    }
}

} // verus!
