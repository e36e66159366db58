//! Local shell backend configuration.

use vstd::prelude::*;

use super::{io_error_kind, unsupported_error};
use crate::text::{clone_pairs, clone_strings};

verus! {

/// Configuration for a local shell session.
#[derive(Debug)]
pub struct LocalShellConfig {
    /// Command to spawn. `None` stands for the user's shell.
    pub program: Option<String>,
    /// Arguments. Empty for an interactive shell.
    pub args: Vec<String>,
    /// Environment overrides. Inherited otherwise.
    pub env: Vec<(String, String)>,
    /// Initial PTY size, in cols/rows.
    pub initial_size: (u16, u16),
}

impl Clone for LocalShellConfig {
    fn clone(&self) -> (c: Self)
        ensures
            c.program is Some <==> self.program is Some,
            c.program matches Some(p) ==> p@ == self.program->Some_0@,
            c.args@.len() == self.args@.len(),
            forall|i: int| 0 <= i < self.args@.len() ==> (#[trigger] c.args@[i])@ == self.args@[i]@,
            c.env@.len() == self.env@.len(),
            forall|i: int|
                0 <= i < self.env@.len() ==> (#[trigger] c.env@[i]).0@ == self.env@[i].0@
                    && c.env@[i].1@ == self.env@[i].1@,
            c.initial_size == self.initial_size,
    {
        let program = match &self.program {
            Some(p) => Some(p.clone()),
            None => None,
        };
        LocalShellConfig {
            program,
            args: clone_strings(&self.args),
            env: clone_pairs(&self.env),
            initial_size: self.initial_size,
        }
    }
}

impl Default for LocalShellConfig {
    fn default() -> (c: Self)
        ensures
            c.program is None,
            c.args@.len() == 0,
            c.env@.len() == 0,
            c.initial_size == (80u16, 24u16),
    {
        LocalShellConfig { program: None, args: Vec::new(), env: Vec::new(), initial_size: (80, 24) }
    }
}

/// Local shell backend.
pub struct LocalShell {
    config: LocalShellConfig,
}

impl LocalShell {
    /// Local PTY sessions are not available: every call fails with an
    /// error of kind `Unsupported`.
    pub fn new(config: LocalShellConfig) -> (r: std::io::Result<Self>)
        ensures
            r matches Err(e) && io_error_kind(e) == std::io::ErrorKind::Unsupported,
    {
        let _ = config;
        Err(unsupported_error("LocalShell::new: local PTY sessions are not available"))
    }
}

} // verus!
