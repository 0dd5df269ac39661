//! Rusty-Pi's verified core: text utilities, tool-result truncation, edit
//! application, prompt templates, skills and system-prompt assembly.

pub mod bash;
pub mod command;
pub mod diff;
pub mod edit;
pub mod frontmatter;
pub mod mime;
pub mod out;
pub mod picker;
pub mod print;
pub mod prompt_session;
pub mod prompt_templates;
pub mod read;
pub mod repl;
pub mod session_controller;
pub mod skill_discovery;
pub mod skills;
pub mod system_prompt;
pub mod text;
pub mod transcript;
pub mod truncate;
pub mod tui;
pub mod workdir;
pub mod write;
