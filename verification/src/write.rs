//! The write tool's parameters, its working directory, path resolution
//! against it, and the report of a completed write.

use vstd::prelude::*;

use std::path::PathBuf;
use std::sync::{Arc, RwLock};

use crate::text::{append_decimal, append_str, chars_of, decimal, str_byte_len, string_from_chars, utf8_len};
use crate::workdir::current_dir_text;

verus! {

/// Parameters for the write tool.
#[derive(Debug, Clone, PartialEq, Eq)]
pub struct WriteParams {
    /// Path to the file to write (relative or absolute).
    pub path: String,
    /// Content to write to the file.
    pub content: String,
}

/// The write tool: writes files relative to the shared working directory.
pub struct WriteTool {
    shared_cwd: Arc<RwLock<PathBuf>>,
}

impl WriteTool {
    pub fn new(shared_cwd: Arc<RwLock<PathBuf>>) -> (t: Self)
        ensures
            t.shared_cwd() == shared_cwd,
    {
        WriteTool { shared_cwd }
    }

    pub closed spec fn shared_cwd(&self) -> Arc<RwLock<PathBuf>> {
        self.shared_cwd
    }

    /// The working directory as text, as it stands now.
    pub fn cwd(&self) -> String {
        current_dir_text(&self.shared_cwd)
    }
}

/// A path resolved against a directory: an absolute path (one starting with
/// `/`) stands as it is; a relative one is appended to the directory,
/// with a `/` between them unless the directory is empty or already ends
/// in one.
pub open spec fn resolved_path(file_path: Seq<char>, cwd: Seq<char>) -> Seq<char> {
    if file_path.len() > 0 && file_path[0] == '/' {
        file_path
    } else if cwd.len() == 0 || cwd.last() == '/' {
        cwd + file_path
    } else {
        cwd + seq!['/'] + file_path
    }
}

/// Resolve a path against the working directory.
pub fn resolve_to_cwd(file_path: &str, cwd: &str) -> (r: String)
    ensures
        r@ == resolved_path(file_path@, cwd@),
{
    let p = chars_of(file_path);
    if p.len() > 0 && p[0] == '/' {
        return string_from_chars(p.as_slice());
    }
    let mut out = chars_of(cwd);
    if out.len() > 0 && out[out.len() - 1] != '/' {
        out.push('/');
    }
    crate::text::append(&mut out, p.as_slice());
    assert(out@ =~= resolved_path(file_path@, cwd@));
    string_from_chars(out.as_slice())
}

/// The report of a successful write: the content's size in bytes and the
/// path as given.
pub open spec fn write_report(params: WriteParams) -> Seq<char> {
    "Successfully wrote "@ + decimal(utf8_len(params.content@)) + " bytes to "@ + params.path@
}

pub fn write_summary(params: &WriteParams) -> (r: String)
    ensures
        r@ == write_report(*params),
{
    let n = str_byte_len(params.content.as_str());
    let mut out: Vec<char> = Vec::new();
    append_str(&mut out, "Successfully wrote ");
    append_decimal(&mut out, n as u64);
    append_str(&mut out, " bytes to ");
    append_str(&mut out, params.path.as_str());
    string_from_chars(out.as_slice())
}

} // verus!
