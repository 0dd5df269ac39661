//! The session controller's values and decisions: request and run
//! identifiers, observable activity, snapshots, prompt classification, and
//! the state machine that answers each request. The task that owns the
//! session and the running future lives with the frontends; it hands each
//! request and settlement to [`SessionController`] and carries out what
//! comes back.

use vstd::prelude::*;

use crate::prompt_templates::strings_view;

use crate::text::{
    append_str, char_is_whitespace, chars_eq_str, chars_of, string_from_chars, sub_chars,
    to_string, trim, trim_chars, trim_start, trim_start_chars,
};

verus! {

/// Identifier of one frontend prompt submission.
#[derive(Debug, Clone, Copy, PartialEq, Eq, Hash, PartialOrd, Ord, Structural)]
pub struct RequestId(u64);

impl RequestId {
    pub closed spec fn value(self) -> nat {
        self.0 as nat
    }

    pub fn get(self) -> (r: u64)
        ensures
            r == self.value(),
    {
        self.0
    }
}

/// Identifier of one agent run.
#[derive(Debug, Clone, Copy, PartialEq, Eq, Hash, PartialOrd, Ord, Structural)]
pub struct RunId(pub u64);

/// Observable controller activity. A run stays active until its future
/// settles, even after its final agent event was seen.
#[derive(Debug, Clone, Copy, PartialEq, Eq, Structural)]
pub enum ControllerActivity {
    Idle,
    Running { request_id: RequestId, run_id: RunId },
    Cancelling { request_id: RequestId, run_id: RunId },
    ShuttingDown,
    Stopped,
}

/// Model data safe to copy across the controller seam.
#[derive(Debug, Clone, PartialEq, Eq)]
pub struct ModelSummary {
    pub id: String,
    pub api: String,
}

/// Read-only session data, owned by the snapshot.
#[derive(Debug, Clone, PartialEq, Eq)]
pub struct SessionSnapshot {
    pub activity: ControllerActivity,
    pub session_id: Option<String>,
    pub model: ModelSummary,
    pub message_count: usize,
    pub current_request_id: Option<RequestId>,
    pub current_run_id: Option<RunId>,
    pub context_files: Vec<String>,
    pub skill_names: Vec<String>,
    pub template_names: Vec<String>,
    pub agent_dir: String,
    pub cwd: String,
}

/// The session's entries as handed out for `/tree`.
#[derive(Debug, Clone)]
pub struct SessionTreeSnapshot<E> {
    entries: Vec<E>,
}

impl<E> SessionTreeSnapshot<E> {
    pub fn new(entries: Vec<E>) -> (s: Self)
        ensures
            s.entries_view() == entries@,
    {
        SessionTreeSnapshot { entries }
    }

    pub closed spec fn entries_view(&self) -> Seq<E> {
        self.entries@
    }

    pub fn entries(&self) -> (r: &[E])
        ensures
            r@ == self.entries_view(),
    {
        self.entries.as_slice()
    }
}

/// Why a prompt was not run.
#[derive(Debug, Clone, PartialEq, Eq)]
pub enum PromptRejection {
    Empty,
    UnknownSlash { name: String },
    ReservedCommand { name: String },
}

pub open spec fn rejection_text(r: PromptRejection) -> Seq<char> {
    match r {
        PromptRejection::Empty => "Prompt is empty"@,
        PromptRejection::UnknownSlash { name } => "Unknown command '/"@ + name@
            + "'. Type '/help' for available commands."@,
        PromptRejection::ReservedCommand { name } => "'/"@ + name@
            + "' is a built-in command and must be routed through the command registry"@,
    }
}

impl PromptRejection {
    /// The user-facing text of the rejection.
    pub fn message(&self) -> (s: String)
        ensures
            s@ == rejection_text(*self),
    {
        let mut out: Vec<char> = Vec::new();
        match self {
            PromptRejection::Empty => {
                append_str(&mut out, "Prompt is empty");
            },
            PromptRejection::UnknownSlash { name } => {
                append_str(&mut out, "Unknown command '/");
                append_str(&mut out, name.as_str());
                append_str(&mut out, "'. Type '/help' for available commands.");
            },
            PromptRejection::ReservedCommand { name } => {
                append_str(&mut out, "'/");
                append_str(&mut out, name.as_str());
                append_str(
                    &mut out,
                    "' is a built-in command and must be routed through the command registry",
                );
            },
        }
        string_from_chars(out.as_slice())
    }
}

#[derive(Debug, Clone, PartialEq, Eq)]
pub enum PromptSubmission {
    Accepted { request_id: RequestId, run_id: RunId, original: String },
    Rejected { request_id: RequestId, reason: PromptRejection },
}

#[derive(Debug, Clone, Copy, PartialEq, Eq, Structural)]
pub enum CancelResult {
    CancellationRequested { request_id: RequestId, run_id: RunId },
    AlreadyCancelling { request_id: RequestId, run_id: RunId },
    NothingRunning,
}

#[derive(Debug, Clone, PartialEq, Eq)]
pub struct ModelChangeResult {
    pub model: ModelSummary,
    pub changed: bool,
}

#[derive(Debug, Clone, PartialEq, Eq)]
pub struct ContextChangeResult {
    pub path: String,
}

#[derive(Debug, Clone, Copy, PartialEq, Eq, Structural)]
pub enum ControllerOperation {
    Spawn,
    Prompt,
    Cancel,
    Snapshot,
    Models,
    ModelChange,
    Context,
    SessionTree,
    Shutdown,
    RunSettlement,
}

#[derive(Debug, Clone, PartialEq, Eq)]
pub enum ControllerRequestError {
    Closed,
    Stopped,
    Busy(ControllerActivity),
    InvalidModel(String),
    InvalidPrompt(String),
    Session(String),
    Internal(String),
}

/// Events sent to the one active frontend receiver; `E` is the agent's
/// event type.
#[derive(Debug)]
pub enum SessionControllerEvent<E> {
    StateChanged(ControllerActivity),
    PromptAccepted { request_id: RequestId, run_id: RunId, original: String },
    PromptRejected { request_id: RequestId, reason: PromptRejection },
    Agent { request_id: RequestId, event: E },
    ControllerError { operation: ControllerOperation, message: String },
    Stopped,
}

// ── Prompt classification ───────────────────────────────────────────────────

/// The name of a slash input: the text after `/` up to the first
/// whitespace.
pub open spec fn slash_name(input: Seq<char>) -> Option<Seq<char>> {
    if input.len() > 0 && input[0] == '/' {
        Some(input.drop_first().take(crate::command::word_end(input.drop_first()) as int))
    } else {
        None
    }
}

/// The names that the command registry owns.
pub open spec fn is_reserved(name: Seq<char>) -> bool {
    name == "help"@ || name == "exit"@ || name == "quit"@ || name == "model"@ || name == "context"@
        || name == "session"@ || name == "tree"@ || name == "list-sessions"@
}

/// What a prompt submission becomes: blank input is rejected; a slash
/// input naming a built-in command is rejected as reserved; another slash
/// input runs as its expansion, or is rejected as unknown when nothing
/// expands it; anything else runs as given. `expansion` is what the
/// session's template and skill expansion made of the input without its
/// leading whitespace (`None` when nothing matched).
pub open spec fn classification(input: Seq<char>, expansion: Option<Seq<char>>) -> Result<
    Seq<char>,
    PromptRejection,
> {
    if trim(input).len() == 0 {
        Err(PromptRejection::Empty)
    } else {
        match slash_name(trim_start(input)) {
            Some(name) => if is_reserved(name) {
                Err(PromptRejection::ReservedCommand { name: name_string(name) })
            } else {
                match expansion {
                    Some(e) => Ok(e),
                    None => Err(PromptRejection::UnknownSlash { name: name_string(name) }),
                }
            },
            None => Ok(input),
        }
    }
}

/// Any string whose text is `s` (used to state which name a rejection
/// carries).
pub open spec fn name_string(s: Seq<char>) -> String {
    choose|x: String| x@ == s
}

pub open spec fn rejection_view(r: PromptRejection) -> (nat, Seq<char>) {
    match r {
        PromptRejection::Empty => (0, seq![]),
        PromptRejection::UnknownSlash { name } => (1, name@),
        PromptRejection::ReservedCommand { name } => (2, name@),
    }
}

pub open spec fn classification_view(c: Result<Seq<char>, PromptRejection>) -> Result<
    Seq<char>,
    (nat, Seq<char>),
> {
    match c {
        Ok(s) => Ok(s),
        Err(r) => Err(rejection_view(r)),
    }
}

fn slash_name_exec(input: &[char]) -> (r: Option<Vec<char>>)
    ensures
        match slash_name(input@) {
            Some(n) => r matches Some(v) && v@ == n,
            None => r is None,
        },
{
    if input.len() == 0 || input[0] != '/' {
        return None;
    }
    let rest = sub_chars(input, 1, input.len());
    assert(rest@ =~= input@.drop_first());
    let mut i: usize = 0;
    assert(rest@.skip(0) =~= rest@);
    while i < rest.len() && !char_is_whitespace(rest[i])
        invariant
            i <= rest@.len(),
            crate::command::word_end(rest@) == i + crate::command::word_end(rest@.skip(i as int)),
        decreases rest@.len() - i,
    {
        assert(rest@.skip(i as int).drop_first() =~= rest@.skip(i + 1));
        i = i + 1;
    }
    let name = sub_chars(rest.as_slice(), 0, i);
    assert(name@ =~= rest@.take(i as int));
    Some(name)
}

fn is_reserved_exec(name: &[char]) -> (r: bool)
    ensures
        r == is_reserved(name@),
{
    chars_eq_str(name, "help") || chars_eq_str(name, "exit") || chars_eq_str(name, "quit")
        || chars_eq_str(name, "model") || chars_eq_str(name, "context") || chars_eq_str(
        name,
        "session",
    ) || chars_eq_str(name, "tree") || chars_eq_str(name, "list-sessions")
}

/// Classify a prompt submission (see [`classification`]).
pub fn classify_prompt(input: &str, expansion: Option<String>) -> (r: Result<String, PromptRejection>)
    ensures
        classification_view(
            match r {
                Ok(s) => Ok(s@),
                Err(e) => Err(e),
            },
        ) == classification_view(
            classification(
                input@,
                match expansion {
                    Some(e) => Some(e@),
                    None => None,
                },
            ),
        ),
{
    let ic = chars_of(input);
    let t = trim_chars(ic.as_slice());
    if t.len() == 0 {
        return Err(PromptRejection::Empty);
    }
    let normalized = trim_start_chars(ic.as_slice());
    match slash_name_exec(normalized.as_slice()) {
        Some(name) => {
            if is_reserved_exec(name.as_slice()) {
                return Err(
                    PromptRejection::ReservedCommand { name: string_from_chars(name.as_slice()) },
                );
            }
            match expansion {
                Some(e) => Ok(e),
                None => Err(
                    PromptRejection::UnknownSlash { name: string_from_chars(name.as_slice()) },
                ),
            }
        },
        None => Ok(to_string(input)),
    }
}

// ── The controller state machine ────────────────────────────────────────────

/// What the controller knows of the session between runs.
#[derive(Debug, Clone)]
pub struct SnapshotData {
    pub session_id: Option<String>,
    pub model: ModelSummary,
    pub message_count: usize,
    pub context_files: Vec<String>,
    pub skill_names: Vec<String>,
    pub template_names: Vec<String>,
    pub agent_dir: String,
    pub cwd: String,
    pub models: Vec<ModelSummary>,
}

/// The run the controller waits on: its identity, whether cancellation
/// was requested, and whether its final agent event was seen.
#[derive(Debug, Clone, Copy, PartialEq, Eq, Structural)]
pub struct ActiveRun {
    pub request_id: RequestId,
    pub run_id: RunId,
    pub cancelled: bool,
    pub terminal_seen: bool,
}

/// Decisions of the session controller: which request is answered how,
/// and what activity follows. The owner of the session performs the work
/// that a decision asks for (starting or cancelling a run, switching the
/// model, adding a context file) and reports settlements back.
pub struct SessionController {
    activity: ControllerActivity,
    active: Option<ActiveRun>,
    shutdown_requested: bool,
    cache: SnapshotData,
    next_request: u64,
}

/// The activity that goes with a run, given whether it is being cancelled.
pub open spec fn run_activity(a: ActiveRun) -> ControllerActivity {
    if a.cancelled {
        ControllerActivity::Cancelling { request_id: a.request_id, run_id: a.run_id }
    } else {
        ControllerActivity::Running { request_id: a.request_id, run_id: a.run_id }
    }
}

/// Consistency of activity, active run and shutdown: a run is active
/// exactly while the activity names it (or shutdown, which cancels it, is
/// under way); `Idle` only without a run and without shutdown; `Stopped`
/// only after shutdown with no run left.
pub open spec fn consistent(
    activity: ControllerActivity,
    active: Option<ActiveRun>,
    shutdown: bool,
) -> bool {
    match active {
        None => (activity == ControllerActivity::Idle && !shutdown) || (activity
            == ControllerActivity::ShuttingDown && shutdown) || (activity
            == ControllerActivity::Stopped && shutdown),
        Some(a) => (!shutdown && activity == run_activity(a)) || (shutdown && a.cancelled
            && activity == ControllerActivity::ShuttingDown),
    }
}

pub open spec fn busy_error(activity: ControllerActivity) -> ControllerRequestError {
    ControllerRequestError::Busy(activity)
}

impl SessionController {
    pub closed spec fn activity(&self) -> ControllerActivity {
        self.activity
    }

    pub closed spec fn active(&self) -> Option<ActiveRun> {
        self.active
    }

    pub closed spec fn shutdown_requested(&self) -> bool {
        self.shutdown_requested
    }

    pub closed spec fn cache(&self) -> SnapshotData {
        self.cache
    }

    /// The identifier the next prompt submission gets.
    pub closed spec fn next_request(&self) -> nat {
        self.next_request as nat
    }

    pub open spec fn wf(&self) -> bool {
        consistent(self.activity(), self.active(), self.shutdown_requested())
    }

    /// Whether a new request may start work: no run, no shutdown.
    pub open spec fn is_idle(&self) -> bool {
        self.active() is None && !self.shutdown_requested()
    }

    /// A controller for a session with the given cached data; it starts
    /// idle and numbers prompt submissions from 1.
    pub fn new(cache: SnapshotData) -> (c: Self)
        ensures
            c.wf(),
            c.activity() == ControllerActivity::Idle,
            c.active() is None,
            !c.shutdown_requested(),
            c.cache() == cache,
            c.next_request() == 1,
    {
        SessionController {
            activity: ControllerActivity::Idle,
            active: None,
            shutdown_requested: false,
            cache,
            next_request: 1,
        }
    }

    pub fn activity_now(&self) -> (a: ControllerActivity)
        ensures
            a == self.activity(),
    {
        self.activity
    }

    pub fn idle(&self) -> (b: bool)
        ensures
            b == self.is_idle(),
    {
        self.active.is_none() && !self.shutdown_requested
    }

    /// The snapshot of the session as the controller sees it now.
    pub fn snapshot(&self) -> (s: SessionSnapshot)
        ensures
            s.activity == self.activity(),
            s.message_count == self.cache().message_count,
            s.current_request_id == current_request(self.activity()),
            s.current_run_id == current_run(self.activity()),
            opt_view(s.session_id) == opt_view(self.cache().session_id),
            model_view(s.model) == model_view(self.cache().model),
            strings_view(s.context_files@) == strings_view(self.cache().context_files@),
            strings_view(s.skill_names@) == strings_view(self.cache().skill_names@),
            strings_view(s.template_names@) == strings_view(self.cache().template_names@),
            s.agent_dir@ == self.cache().agent_dir@,
            s.cwd@ == self.cache().cwd@,
    {
        let (current_request_id, current_run_id) = match self.activity {
            ControllerActivity::Running { request_id, run_id } => (Some(request_id), Some(run_id)),
            ControllerActivity::Cancelling { request_id, run_id } => (
                Some(request_id),
                Some(run_id),
            ),
            _ => (None, None),
        };
        SessionSnapshot {
            activity: self.activity,
            session_id: copy_opt(&self.cache.session_id),
            model: copy_model(&self.cache.model),
            message_count: self.cache.message_count,
            current_request_id,
            current_run_id,
            context_files: copy_strings(&self.cache.context_files),
            skill_names: copy_strings(&self.cache.skill_names),
            template_names: copy_strings(&self.cache.template_names),
            agent_dir: to_string(self.cache.agent_dir.as_str()),
            cwd: to_string(self.cache.cwd.as_str()),
        }
    }
}

pub open spec fn current_request(a: ControllerActivity) -> Option<RequestId> {
    match a {
        ControllerActivity::Running { request_id, .. } => Some(request_id),
        ControllerActivity::Cancelling { request_id, .. } => Some(request_id),
        _ => None,
    }
}

pub open spec fn current_run(a: ControllerActivity) -> Option<RunId> {
    match a {
        ControllerActivity::Running { run_id, .. } => Some(run_id),
        ControllerActivity::Cancelling { run_id, .. } => Some(run_id),
        _ => None,
    }
}

pub open spec fn opt_view(o: Option<String>) -> Option<Seq<char>> {
    match o {
        Some(s) => Some(s@),
        None => None,
    }
}

pub open spec fn model_view(m: ModelSummary) -> (Seq<char>, Seq<char>) {
    (m.id@, m.api@)
}

pub open spec fn models_view(ms: Seq<ModelSummary>) -> Seq<(Seq<char>, Seq<char>)> {
    ms.map_values(|m: ModelSummary| model_view(m))
}

fn copy_opt(o: &Option<String>) -> (r: Option<String>)
    ensures
        opt_view(r) == opt_view(*o),
{
    match o {
        Some(s) => Some(to_string(s.as_str())),
        None => None,
    }
}

fn copy_model(m: &ModelSummary) -> (r: ModelSummary)
    ensures
        model_view(r) == model_view(*m),
{
    ModelSummary { id: to_string(m.id.as_str()), api: to_string(m.api.as_str()) }
}

fn copy_strings(v: &Vec<String>) -> (r: Vec<String>)
    ensures
        strings_view(r@) == strings_view(v@),
{
    let mut r: Vec<String> = Vec::new();
    let mut i: usize = 0;
    while i < v.len()
        invariant
            i <= v@.len(),
            strings_view(r@) == strings_view(v@.take(i as int)),
        decreases v@.len() - i,
    {
        let ghost before = r@;
        let x = to_string(v[i].as_str());
        r.push(x);
        assert(strings_view(r@) =~= strings_view(before).push(v@[i as int]@));
        assert(v@.take(i + 1) =~= v@.take(i as int).push(v@[i as int]));
        assert(strings_view(r@) =~= strings_view(v@.take(i + 1)));
        i = i + 1;
    }
    assert(v@.take(v@.len() as int) =~= v@);
    r
}

fn copy_models(v: &Vec<ModelSummary>) -> (r: Vec<ModelSummary>)
    ensures
        models_view(r@) == models_view(v@),
{
    let mut r: Vec<ModelSummary> = Vec::new();
    let mut i: usize = 0;
    while i < v.len()
        invariant
            i <= v@.len(),
            models_view(r@) == models_view(v@.take(i as int)),
        decreases v@.len() - i,
    {
        let ghost before = r@;
        let m = copy_model(&v[i]);
        r.push(m);
        assert(models_view(r@) =~= models_view(before).push(model_view(v@[i as int])));
        assert(v@.take(i + 1) =~= v@.take(i as int).push(v@[i as int]));
        assert(models_view(r@) =~= models_view(v@.take(i + 1)));
        i = i + 1;
    }
    assert(v@.take(v@.len() as int) =~= v@);
    r
}

pub open spec fn same_state(a: SessionController, b: SessionController) -> bool {
    &&& a.activity() == b.activity()
    &&& a.active() == b.active()
    &&& a.shutdown_requested() == b.shutdown_requested()
    &&& a.cache() == b.cache()
    &&& a.next_request() == b.next_request()
}

/// The identifier after `n`, wrapping around as the counter does.
pub open spec fn next_id(n: nat) -> nat {
    if n >= u64::MAX {
        0
    } else {
        n + 1
    }
}

/// Index of the first cached model with identifier `id`, from `i` on.
pub open spec fn model_index(ms: Seq<ModelSummary>, id: Seq<char>, i: int) -> Option<int>
    decreases ms.len() - i,
{
    if i < 0 || i >= ms.len() {
        None
    } else if ms[i].id@ == id {
        Some(i)
    } else {
        model_index(ms, id, i + 1)
    }
}

proof fn lemma_model_index_bound(ms: Seq<ModelSummary>, id: Seq<char>, i: int)
    ensures
        model_index(ms, id, i) matches Some(k) ==> 0 <= i <= k < ms.len() && ms[k].id@ == id,
    decreases ms.len() - i,
{
    if 0 <= i < ms.len() && ms[i].id@ != id {
        lemma_model_index_bound(ms, id, i + 1);
    }
}

/// The answer to a model switch when the identifier is known and no run is
/// active: the current model is reported unchanged; a model the agent does
/// not know is `InvalidModel`; otherwise it becomes current.
pub open spec fn switch_agrees(
    before: SessionController,
    after: SessionController,
    model_id: Seq<char>,
    agent_knows: bool,
    r: Result<ModelChangeResult, ControllerRequestError>,
) -> bool {
    match model_index(before.cache().models@, model_id, 0) {
        None => true,
        Some(k) => {
            let m = before.cache().models@[k];
            if model_view(m) == model_view(before.cache().model) {
                (r matches Ok(c) && !c.changed && model_view(c.model) == model_view(m))
                    && same_state(after, before)
            } else if !agent_knows {
                (r matches Err(ControllerRequestError::InvalidModel(x)) && x@ == m.id@)
                    && same_state(after, before)
            } else {
                &&& (r matches Ok(c) && c.changed && model_view(c.model) == model_view(m))
                &&& model_view(after.cache().model) == model_view(m)
                &&& after.cache() == (SnapshotData { model: after.cache().model, ..before.cache() })
                &&& after.activity() == before.activity()
                &&& after.active() == before.active()
                &&& after.shutdown_requested() == before.shutdown_requested()
                &&& after.next_request() == before.next_request()
            }
        },
    }
}

fn find_model(ms: &Vec<ModelSummary>, model_id: &str) -> (r: Option<usize>)
    ensures
        match r {
            Some(i) => model_index(ms@, model_id@, 0) == Some(i as int) && i < ms@.len(),
            None => model_index(ms@, model_id@, 0) is None,
        },
{
    let id = chars_of(model_id);
    let mut i: usize = 0;
    proof {
        lemma_model_index_bound(ms@, model_id@, 0);
    }
    while i < ms.len()
        invariant
            i <= ms@.len(),
            id@ == model_id@,
            model_index(ms@, model_id@, 0) == model_index(ms@, model_id@, i as int),
        decreases ms@.len() - i,
    {
        let mid = chars_of(ms[i].id.as_str());
        if crate::text::chars_eq(mid.as_slice(), id.as_slice()) {
            return Some(i);
        }
        i = i + 1;
    }
    None
}

fn copy_rejection(r: &PromptRejection) -> (c: PromptRejection)
    ensures
        rejection_view(c) == rejection_view(*r),
{
    match r {
        PromptRejection::Empty => PromptRejection::Empty,
        PromptRejection::UnknownSlash { name } => PromptRejection::UnknownSlash {
            name: to_string(name.as_str()),
        },
        PromptRejection::ReservedCommand { name } => PromptRejection::ReservedCommand {
            name: to_string(name.as_str()),
        },
    }
}

impl SessionController {
    /// First step of a prompt submission: a busy controller answers `Busy`
    /// (and one shutting down `Stopped`) and changes nothing; an idle one
    /// hands out the next request identifier.
    pub fn open_prompt(&mut self) -> (r: Result<RequestId, ControllerRequestError>)
        requires
            old(self).wf(),
        ensures
            final(self).wf(),
            old(self).active() is Some ==> r == Err::<RequestId, ControllerRequestError>(
                busy_error(old(self).activity()),
            ) && same_state(*final(self), *old(self)),
            old(self).active() is None && old(self).shutdown_requested() ==> r == Err::<
                RequestId,
                ControllerRequestError,
            >(ControllerRequestError::Stopped) && same_state(*final(self), *old(self)),
            old(self).is_idle() ==> (r matches Ok(id) && id.value() == old(self).next_request()),
            old(self).is_idle() ==> final(self).next_request() == next_id(old(self).next_request()),
            old(self).is_idle() ==> final(self).activity() == old(self).activity() && final(self).active() == old(self).active() && final(self).shutdown_requested() == old(self).shutdown_requested() && final(self).cache() == old(self).cache(),
    {
        if self.active.is_some() {
            return Err(ControllerRequestError::Busy(self.activity));
        }
        if self.shutdown_requested {
            return Err(ControllerRequestError::Stopped);
        }
        let id = RequestId(self.next_request);
        self.next_request = if self.next_request == u64::MAX {
            0
        } else {
            self.next_request + 1
        };
        Ok(id)
    }

    /// A submission that classification rejected: the reply and the event
    /// for the frontend. Nothing else changes.
    pub fn reject_prompt<E>(&self, request_id: RequestId, reason: PromptRejection) -> (r: (
        PromptSubmission,
        SessionControllerEvent<E>,
    ))
        ensures
            r.0 matches PromptSubmission::Rejected { request_id: rid, reason: why } && rid
                == request_id && rejection_view(why) == rejection_view(reason),
            r.1 matches SessionControllerEvent::PromptRejected { request_id: rid, reason: why }
                && rid == request_id && rejection_view(why) == rejection_view(reason),
    {
        let copy = copy_rejection(&reason);
        (
            PromptSubmission::Rejected { request_id, reason },
            SessionControllerEvent::PromptRejected { request_id, reason: copy },
        )
    }

    /// A submission that runs: the controller is then running it, one more
    /// message is counted (saturating), and the frontend is told about the
    /// accepted prompt and the new activity, in that order.
    pub fn start_run<E>(&mut self, request_id: RequestId, run_id: RunId, input: &str) -> (r: (
        PromptSubmission,
        Vec<SessionControllerEvent<E>>,
    ))
        requires
            old(self).wf(),
            old(self).is_idle(),
        ensures
            final(self).wf(),
            final(self).activity() == (ControllerActivity::Running { request_id, run_id }),
            final(self).active() == Some(
                ActiveRun { request_id, run_id, cancelled: false, terminal_seen: false },
            ),
            !final(self).shutdown_requested(),
            final(self).next_request() == old(self).next_request(),
            final(self).cache().message_count == (if old(self).cache().message_count < usize::MAX {
                old(self).cache().message_count + 1
            } else {
                old(self).cache().message_count as int
            }),
            final(self).cache() == (SnapshotData {
                message_count: final(self).cache().message_count,
                ..old(self).cache()
            }),
            r.0 matches PromptSubmission::Accepted { request_id: rid, run_id: run, original }
                && rid == request_id && run == run_id && original@ == input@,
            r.1@.len() == 2,
            r.1@[0] matches SessionControllerEvent::PromptAccepted {
                request_id: rid,
                run_id: run,
                original,
            } && rid == request_id && run == run_id && original@ == input@,
            r.1@[1] == SessionControllerEvent::<E>::StateChanged(
                ControllerActivity::Running { request_id, run_id },
            ),
    {
        self.activity = ControllerActivity::Running { request_id, run_id };
        self.active = Some(ActiveRun { request_id, run_id, cancelled: false, terminal_seen: false });
        if self.cache.message_count < usize::MAX {
            self.cache.message_count = self.cache.message_count + 1;
        }
        let mut events: Vec<SessionControllerEvent<E>> = Vec::new();
        events.push(
            SessionControllerEvent::PromptAccepted { request_id, run_id, original: to_string(input) },
        );
        events.push(SessionControllerEvent::StateChanged(self.activity));
        (PromptSubmission::Accepted { request_id, run_id, original: to_string(input) }, events)
    }

    /// Cancel the current run: nothing runs — `NothingRunning`; the run is
    /// already being cancelled or shut down — `AlreadyCancelling`; else
    /// the run is marked cancelled and the activity becomes `Cancelling`.
    pub fn cancel_current<E>(&mut self) -> (r: (CancelResult, Vec<SessionControllerEvent<E>>))
        requires
            old(self).wf(),
        ensures
            final(self).wf(),
            match old(self).active() {
                None => r.0 == CancelResult::NothingRunning && r.1@.len() == 0 && same_state(
                    *final(self),
                    *old(self),
                ),
                Some(a) => if a.cancelled || old(self).shutdown_requested() {
                    r.0 == (CancelResult::AlreadyCancelling {
                        request_id: a.request_id,
                        run_id: a.run_id,
                    }) && r.1@.len() == 0 && same_state(*final(self), *old(self))
                } else {
                    &&& r.0 == (CancelResult::CancellationRequested {
                        request_id: a.request_id,
                        run_id: a.run_id,
                    })
                    &&& final(self).active() == Some(ActiveRun { cancelled: true, ..a })
                    &&& final(self).activity() == (ControllerActivity::Cancelling {
                        request_id: a.request_id,
                        run_id: a.run_id,
                    })
                    &&& final(self).shutdown_requested() == old(self).shutdown_requested()
                    &&& final(self).cache() == old(self).cache()
                    &&& final(self).next_request() == old(self).next_request()
                    &&& r.1@ == seq![
                        SessionControllerEvent::<E>::StateChanged(final(self).activity()),
                    ]
                },
            },
    {
        let mut events: Vec<SessionControllerEvent<E>> = Vec::new();
        match self.active {
            None => (CancelResult::NothingRunning, events),
            Some(a) => {
                if a.cancelled || self.shutdown_requested {
                    (
                        CancelResult::AlreadyCancelling { request_id: a.request_id, run_id: a.run_id },
                        events,
                    )
                } else {
                    self.active = Some(ActiveRun { cancelled: true, ..a });
                    self.activity = ControllerActivity::Cancelling {
                        request_id: a.request_id,
                        run_id: a.run_id,
                    };
                    events.push(SessionControllerEvent::StateChanged(self.activity));
                    proof {
                        assert(events@ =~= seq![SessionControllerEvent::<E>::StateChanged(self.activity)]);
                    }
                    (
                        CancelResult::CancellationRequested {
                            request_id: a.request_id,
                            run_id: a.run_id,
                        },
                        events,
                    )
                }
            },
        }
    }

    /// The models the session offers; `Busy` while a run is active.
    pub fn list_models(&self) -> (r: Result<Vec<ModelSummary>, ControllerRequestError>)
        requires
            self.wf(),
        ensures
            self.active() is Some ==> r == Err::<Vec<ModelSummary>, ControllerRequestError>(
                busy_error(self.activity()),
            ),
            self.active() is None ==> (r matches Ok(ms) && models_view(ms@) == models_view(
                self.cache().models@,
            )),
    {
        if self.active.is_some() {
            return Err(ControllerRequestError::Busy(self.activity));
        }
        Ok(copy_models(&self.cache.models))
    }

    /// Switch to the model with identifier `model_id`. `agent_knows` says
    /// whether the agent itself offers a model with that identifier.
    /// While a run is active the answer is `Busy`; an unknown identifier is
    /// `InvalidModel`; the current model is reported unchanged; otherwise
    /// the model becomes current, unless the agent does not know it.
    pub fn switch_model(&mut self, model_id: &str, agent_knows: bool) -> (r: Result<
        ModelChangeResult,
        ControllerRequestError,
    >)
        requires
            old(self).wf(),
        ensures
            final(self).wf(),
            final(self).activity() == old(self).activity(),
            final(self).active() == old(self).active(),
            final(self).shutdown_requested() == old(self).shutdown_requested(),
            final(self).next_request() == old(self).next_request(),
            old(self).active() is Some ==> r == Err::<ModelChangeResult, ControllerRequestError>(
                busy_error(old(self).activity()),
            ) && same_state(*final(self), *old(self)),
            old(self).active() is None && model_index(old(self).cache().models@, model_id@, 0) is None
                ==> (r matches Err(ControllerRequestError::InvalidModel(x)) && x@ == model_id@)
                && same_state(*final(self), *old(self)),
            old(self).active() is None ==> switch_agrees(
                *old(self),
                *final(self),
                model_id@,
                agent_knows,
                r,
            ),
    {
        if self.active.is_some() {
            return Err(ControllerRequestError::Busy(self.activity));
        }
        let found = find_model(&self.cache.models, model_id);
        proof {
            lemma_model_index_bound(self.cache.models@, model_id@, 0);
        }
        let i = match found {
            None => {
                return Err(ControllerRequestError::InvalidModel(to_string(model_id)));
            },
            Some(i) => i,
        };
        let m = copy_model(&self.cache.models[i]);
        let cur_id = chars_of(self.cache.model.id.as_str());
        let cur_api = chars_of(self.cache.model.api.as_str());
        let same = crate::text::chars_eq_str(cur_id.as_slice(), m.id.as_str())
            && crate::text::chars_eq_str(cur_api.as_slice(), m.api.as_str());
        assert(same == (model_view(m) == model_view(self.cache.model)));
        if same {
            return Ok(ModelChangeResult { model: m, changed: false });
        }
        if !agent_knows {
            return Err(ControllerRequestError::InvalidModel(to_string(m.id.as_str())));
        }
        self.cache.model = copy_model(&m);
        Ok(ModelChangeResult { model: m, changed: true })
    }
}

impl SessionController {
    /// Record a context file added to the session; `Busy` while a run is
    /// active.
    pub fn add_context(&mut self, path: &str) -> (r: Result<ContextChangeResult, ControllerRequestError>)
        requires
            old(self).wf(),
        ensures
            final(self).wf(),
            old(self).active() is Some ==> r == Err::<ContextChangeResult, ControllerRequestError>(
                busy_error(old(self).activity()),
            ) && same_state(*final(self), *old(self)),
            old(self).active() is None ==> {
                &&& r matches Ok(c) && c.path@ == path@
                &&& strings_view(final(self).cache().context_files@) == strings_view(
                    old(self).cache().context_files@,
                ).push(path@)
                &&& final(self).cache() == (SnapshotData {
                    context_files: final(self).cache().context_files,
                    ..old(self).cache()
                })
                &&& final(self).activity() == old(self).activity()
                &&& final(self).active() == old(self).active()
                &&& final(self).shutdown_requested() == old(self).shutdown_requested()
                &&& final(self).next_request() == old(self).next_request()
            },
    {
        if self.active.is_some() {
            return Err(ControllerRequestError::Busy(self.activity));
        }
        let ghost before = self.cache.context_files@;
        self.cache.context_files.push(to_string(path));
        assert(strings_view(self.cache.context_files@) =~= strings_view(before).push(path@));
        Ok(ContextChangeResult { path: to_string(path) })
    }

    /// Whether the session tree may be read now; `Busy` while a run is
    /// active.
    pub fn check_session_tree(&self) -> (r: Result<(), ControllerRequestError>)
        ensures
            self.active() is Some ==> r == Err::<(), ControllerRequestError>(
                busy_error(self.activity()),
            ),
            self.active() is None ==> r is Ok,
    {
        if self.active.is_some() {
            return Err(ControllerRequestError::Busy(self.activity));
        }
        Ok(())
    }

    /// A shutdown request: refused once stopped; otherwise shutdown starts,
    /// an active run is cancelled, and the activity becomes `ShuttingDown`.
    /// The request is answered once the controller has stopped.
    pub fn request_shutdown<E>(&mut self) -> (r: Result<Vec<SessionControllerEvent<E>>, ControllerRequestError>)
        requires
            old(self).wf(),
        ensures
            final(self).wf(),
            old(self).activity() == ControllerActivity::Stopped ==> r == Err::<
                Vec<SessionControllerEvent<E>>,
                ControllerRequestError,
            >(ControllerRequestError::Stopped) && same_state(*final(self), *old(self)),
            old(self).activity() != ControllerActivity::Stopped ==> {
                &&& r matches Ok(events) && events@ == seq![
                    SessionControllerEvent::<E>::StateChanged(ControllerActivity::ShuttingDown),
                ]
                &&& final(self).activity() == ControllerActivity::ShuttingDown
                &&& final(self).shutdown_requested()
                &&& final(self).active() == match old(self).active() {
                    Some(a) => Some(ActiveRun { cancelled: true, ..a }),
                    None => None,
                }
                &&& final(self).cache() == old(self).cache()
                &&& final(self).next_request() == old(self).next_request()
            },
    {
        if self.activity == ControllerActivity::Stopped {
            return Err(ControllerRequestError::Stopped);
        }
        Ok(self.begin_shutdown())
    }

    /// The request side went away: shut down as for a request.
    pub fn requests_closed<E>(&mut self) -> (events: Vec<SessionControllerEvent<E>>)
        requires
            old(self).wf(),
            old(self).activity() != ControllerActivity::Stopped,
        ensures
            final(self).wf(),
            events@ == seq![SessionControllerEvent::<E>::StateChanged(ControllerActivity::ShuttingDown)],
            final(self).activity() == ControllerActivity::ShuttingDown,
            final(self).shutdown_requested(),
            final(self).active() == match old(self).active() {
                Some(a) => Some(ActiveRun { cancelled: true, ..a }),
                None => None,
            },
            final(self).cache() == old(self).cache(),
            final(self).next_request() == old(self).next_request(),
    {
        self.begin_shutdown()
    }

    fn begin_shutdown<E>(&mut self) -> (events: Vec<SessionControllerEvent<E>>)
        requires
            old(self).wf(),
            old(self).activity() != ControllerActivity::Stopped,
        ensures
            final(self).wf(),
            events@ == seq![SessionControllerEvent::<E>::StateChanged(ControllerActivity::ShuttingDown)],
            final(self).activity() == ControllerActivity::ShuttingDown,
            final(self).shutdown_requested(),
            final(self).active() == match old(self).active() {
                Some(a) => Some(ActiveRun { cancelled: true, ..a }),
                None => None,
            },
            final(self).cache() == old(self).cache(),
            final(self).next_request() == old(self).next_request(),
    {
        self.shutdown_requested = true;
        match self.active {
            Some(a) => {
                self.active = Some(ActiveRun { cancelled: true, ..a });
            },
            None => {},
        }
        self.activity = ControllerActivity::ShuttingDown;
        let mut events: Vec<SessionControllerEvent<E>> = Vec::new();
        events.push(SessionControllerEvent::StateChanged(ControllerActivity::ShuttingDown));
        assert(events@ =~= seq![SessionControllerEvent::<E>::StateChanged(ControllerActivity::ShuttingDown)]);
        events
    }

    /// An event of the active run, forwarded under its request; whether it
    /// is the run's final event is remembered. Without an active run the
    /// event is dropped.
    pub fn agent_event<E>(&mut self, event: E, terminal: bool) -> (r: Option<SessionControllerEvent<E>>)
        requires
            old(self).wf(),
        ensures
            final(self).wf(),
            final(self).activity() == old(self).activity(),
            final(self).shutdown_requested() == old(self).shutdown_requested(),
            final(self).cache() == old(self).cache(),
            final(self).next_request() == old(self).next_request(),
            match old(self).active() {
                None => r is None && final(self).active() is None,
                Some(a) => r == Some(SessionControllerEvent::Agent { request_id: a.request_id, event })
                    && final(self).active() == Some(
                    ActiveRun { terminal_seen: a.terminal_seen || terminal, ..a },
                ),
            },
    {
        match self.active {
            None => None,
            Some(a) => {
                self.active = Some(ActiveRun { terminal_seen: a.terminal_seen || terminal, ..a });
                Some(SessionControllerEvent::Agent { request_id: a.request_id, event })
            },
        }
    }

    /// The agent's event channel closed under an active run: reported as a
    /// controller error, and the controller shuts down, cancelling the run.
    pub fn agent_channel_closed<E>(&mut self) -> (events: Vec<SessionControllerEvent<E>>)
        requires
            old(self).wf(),
            old(self).active() is Some,
        ensures
            final(self).wf(),
            events@.len() == 2,
            events@[0] matches SessionControllerEvent::ControllerError { operation, message }
                && operation == ControllerOperation::RunSettlement && message@
                == "agent event channel closed"@,
            events@[1] == SessionControllerEvent::<E>::StateChanged(ControllerActivity::ShuttingDown),
            final(self).activity() == ControllerActivity::ShuttingDown,
            final(self).shutdown_requested(),
            final(self).active() == Some(ActiveRun { cancelled: true, ..old(self).active().unwrap() }),
            final(self).cache() == old(self).cache(),
            final(self).next_request() == old(self).next_request(),
    {
        let mut events: Vec<SessionControllerEvent<E>> = Vec::new();
        events.push(
            SessionControllerEvent::ControllerError {
                operation: ControllerOperation::RunSettlement,
                message: to_string("agent event channel closed"),
            },
        );
        let mut rest = self.begin_shutdown();
        events.append(&mut rest);
        events
    }

    /// The active run settled. The run is over; the cached session data is
    /// refreshed; a failure is reported unless the run's final event was
    /// already seen; and the controller is idle again unless it is shutting
    /// down.
    pub fn run_settled<E>(&mut self, failure: Option<String>, cache: SnapshotData) -> (events: Vec<
        SessionControllerEvent<E>,
    >)
        requires
            old(self).wf(),
            old(self).active() is Some,
        ensures
            final(self).wf(),
            final(self).active() is None,
            final(self).cache() == cache,
            final(self).shutdown_requested() == old(self).shutdown_requested(),
            final(self).next_request() == old(self).next_request(),
            old(self).shutdown_requested() ==> final(self).activity() == ControllerActivity::ShuttingDown,
            !old(self).shutdown_requested() ==> final(self).activity() == ControllerActivity::Idle,
            ({
                let report = failure is Some && !old(self).active().unwrap().terminal_seen;
                let idle = !old(self).shutdown_requested();
                &&& events@.len() == (if report { 1int } else { 0 }) + (if idle { 1int } else { 0 })
                &&& report ==> (events@[0] matches SessionControllerEvent::ControllerError {
                    operation,
                    message,
                } && operation == ControllerOperation::RunSettlement && message
                    == failure.unwrap())
                &&& idle ==> events@.last() == SessionControllerEvent::<E>::StateChanged(
                    ControllerActivity::Idle,
                )
            }),
    {
        let terminal_seen = match self.active {
            Some(a) => a.terminal_seen,
            None => false,
        };
        self.active = None;
        self.cache = cache;
        let mut events: Vec<SessionControllerEvent<E>> = Vec::new();
        match failure {
            Some(message) => {
                if !terminal_seen {
                    events.push(
                        SessionControllerEvent::ControllerError {
                            operation: ControllerOperation::RunSettlement,
                            message,
                        },
                    );
                }
            },
            None => {},
        }
        if !self.shutdown_requested {
            self.activity = ControllerActivity::Idle;
            events.push(SessionControllerEvent::StateChanged(ControllerActivity::Idle));
        }
        events
    }

    /// Once shutdown was requested and no run is left, the controller
    /// stops: the activity becomes `Stopped` and the frontend is told so.
    pub fn finish<E>(&mut self) -> (events: Vec<SessionControllerEvent<E>>)
        requires
            old(self).wf(),
            old(self).shutdown_requested(),
            old(self).active() is None,
        ensures
            final(self).wf(),
            final(self).activity() == ControllerActivity::Stopped,
            final(self).shutdown_requested(),
            final(self).active() is None,
            final(self).cache() == old(self).cache(),
            final(self).next_request() == old(self).next_request(),
            events@ == seq![
                SessionControllerEvent::<E>::StateChanged(ControllerActivity::Stopped),
                SessionControllerEvent::<E>::Stopped,
            ],
    {
        self.activity = ControllerActivity::Stopped;
        let mut events: Vec<SessionControllerEvent<E>> = Vec::new();
        events.push(SessionControllerEvent::StateChanged(ControllerActivity::Stopped));
        events.push(SessionControllerEvent::Stopped);
        assert(events@ =~= seq![
            SessionControllerEvent::<E>::StateChanged(ControllerActivity::Stopped),
            SessionControllerEvent::<E>::Stopped,
        ]);
        events
    }
}

impl SessionController {
    /// The answer a cancellation request gets in this state.
    pub open spec fn cancel_reply(self) -> CancelResult {
        match self.active() {
            None => CancelResult::NothingRunning,
            Some(a) => if a.cancelled || self.shutdown_requested() {
                CancelResult::AlreadyCancelling { request_id: a.request_id, run_id: a.run_id }
            } else {
                CancelResult::CancellationRequested { request_id: a.request_id, run_id: a.run_id }
            },
        }
    }

    /// The state after a cancellation request.
    pub closed spec fn after_cancel(self) -> SessionController {
        match self.active {
            Some(a) => if a.cancelled || self.shutdown_requested {
                self
            } else {
                SessionController {
                    activity: ControllerActivity::Cancelling {
                        request_id: a.request_id,
                        run_id: a.run_id,
                    },
                    active: Some(ActiveRun { cancelled: true, ..a }),
                    ..self
                }
            },
            None => self,
        }
    }

    /// A cancellation request answers [`Self::cancel_reply`] and leaves the
    /// state [`Self::after_cancel`].
    pub fn cancel(&mut self) -> (r: CancelResult)
        requires
            old(self).wf(),
        ensures
            final(self).wf(),
            r == old(self).cancel_reply(),
            same_state(*final(self), old(self).after_cancel()),
    {
        let (r, _events) = self.cancel_current::<()>();
        r
    }
}

/// Cancelling twice asks for cancellation once: the second request is
/// answered `AlreadyCancelling` for the same run and changes nothing.
pub proof fn lemma_cancel_is_idempotent(c: SessionController)
    requires
        c.wf(),
        c.active() is Some,
    ensures
        c.after_cancel().wf(),
        c.after_cancel().cancel_reply() == (CancelResult::AlreadyCancelling {
            request_id: c.active().unwrap().request_id,
            run_id: c.active().unwrap().run_id,
        }),
        same_state(c.after_cancel().after_cancel(), c.after_cancel()),
{
}

/// While a run is active, the activity (and so every snapshot) names that
/// run, unless shutdown is under way; and the controller is never idle
/// with a run active.
pub proof fn lemma_activity_names_active_run(c: SessionController)
    requires
        c.wf(),
    ensures
        c.active() is Some && !c.shutdown_requested() ==> current_request(c.activity()) == Some(
            c.active().unwrap().request_id,
        ) && current_run(c.activity()) == Some(c.active().unwrap().run_id),
        c.activity() == ControllerActivity::Idle ==> c.active() is None,
        c.active() is None ==> current_run(c.activity()) is None,
{
}

} // verus!
