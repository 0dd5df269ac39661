//! The working directory shared by the file tools: a path behind a
//! read-write lock, updated when a shell command changes directory.

use vstd::prelude::*;

use std::path::PathBuf;
use std::sync::{Arc, RwLock};

verus! {

#[verifier::external_type_specification]
#[verifier::external_body]
pub struct ExPathBuf(std::path::PathBuf);

#[verifier::external_type_specification]
#[verifier::external_body]
#[verifier::reject_recursive_types(T)]
pub struct ExRwLock<T: ?Sized>(std::sync::RwLock<T>);

/// The path currently behind the lock, `PathBuf::to_string_lossy` of what
/// `RwLock::read` gives (also when another holder panicked). The contract
/// states nothing of the text: it is whatever the lock holds at the time
/// of the call.
#[verifier::external_body]
pub(crate) fn current_dir_text(shared_cwd: &Arc<RwLock<PathBuf>>) -> (s: String) {
    match shared_cwd.read() {
        Ok(guard) => guard.to_string_lossy().to_string(),
        Err(poisoned) => poisoned.into_inner().to_string_lossy().to_string(),
    }
}

} // verus!
