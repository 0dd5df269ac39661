//! The line frontend's values: its run configuration, its startup banner
//! and where its input history is kept.

use vstd::prelude::*;

use crate::out::{banner_line, OutputFormatter};
use crate::prompt_session::PromptSession;
use crate::write::{resolve_to_cwd, resolved_path};

verus! {

/// What the line frontend runs: one prompt (then exit), or the interactive
/// loop when there is none.
pub struct RunConfig {
    pub prompt: Option<String>,
    pub session: PromptSession,
}

/// The banner printed when the frontend starts.
pub fn startup_banner(provider: &str, model: &str, session_id: &str) -> (s: String)
    ensures
        s@ == banner_line(provider@, model@, session_id@),
{
    OutputFormatter::new().banner(provider, model, session_id)
}

/// The history file under a home directory: `.pi/agent/repl-history.txt`.
pub fn history_path_for_home(home: &str) -> (p: String)
    ensures
        p@ == resolved_path(".pi/agent/repl-history.txt"@, home@),
{
    resolve_to_cwd(".pi/agent/repl-history.txt", home)
}

} // verus!
