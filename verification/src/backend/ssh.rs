//! SSH backend configuration types.

use std::path::PathBuf;
use std::sync::Arc;
use std::time::Duration;

use vstd::prelude::*;

use super::{io_error_kind, unsupported_error};
use crate::text::clone_pairs;

verus! {

/// A filesystem path, held opaque.
#[verifier::external_type_specification]
#[verifier::external_body]
pub struct ExPathBuf(PathBuf);

/// Cloning a path. Nothing is stated of the copy.
pub assume_specification[<PathBuf as Clone>::clone](p: &PathBuf) -> PathBuf;

/// What `Duration::from_secs` returns for a number of seconds.
pub uninterp spec fn duration_from_secs(secs: u64) -> Duration;

/// A span of `secs` whole seconds.
///
/// Trusted: calls `std::time::Duration::from_secs`; the result is named by
/// `duration_from_secs` applied to the same number.
#[verifier::external_body]
fn secs(n: u64) -> (d: Duration)
    ensures
        d == duration_from_secs(n),
{
    Duration::from_secs(n)
}

/// Authentication method for an SSH session.
#[derive(Debug)]
pub enum SshAuth {
    /// Walk the agent's identities. The default.
    Agent,
    /// Read a private key from `path`. The passphrase is supplied at
    /// connect time and never persisted.
    Key { path: PathBuf, passphrase: Option<String> },
}

/// Policy for verifying the server's host key.
#[derive(Debug)]
pub enum HostKeyPolicy {
    /// Reject any host whose key isn't already in `~/.ssh/known_hosts`.
    StrictKnownHosts,
    /// On first connect, store the fingerprint at `path`. Reject on a later
    /// mismatch unless a mismatch callback approves.
    TofuStore { path: PathBuf },
}

impl Clone for SshAuth {
    /// The same method; a key's passphrase is copied, its path cloned.
    fn clone(&self) -> (c: Self)
        ensures
            c is Agent <==> self is Agent,
            c is Key <==> self is Key,
            self is Key ==> (c->passphrase is Some <==> self->passphrase is Some),
            (self is Key && self->passphrase is Some) ==> c->passphrase->Some_0@
                == self->passphrase->Some_0@,
    {
        match self {
            SshAuth::Agent => SshAuth::Agent,
            SshAuth::Key { path, passphrase } => {
                let passphrase = match passphrase {
                    Some(p) => Some(p.clone()),
                    None => None,
                };
                SshAuth::Key { path: path.clone(), passphrase }
            },
        }
    }
}

impl Clone for HostKeyPolicy {
    /// The same policy; a store's path is cloned.
    fn clone(&self) -> (c: Self)
        ensures
            c is StrictKnownHosts <==> self is StrictKnownHosts,
            c is TofuStore <==> self is TofuStore,
    {
        match self {
            HostKeyPolicy::StrictKnownHosts => HostKeyPolicy::StrictKnownHosts,
            HostKeyPolicy::TofuStore { path } => HostKeyPolicy::TofuStore { path: path.clone() },
        }
    }
}

/// Information passed to a mismatch callback when a stored key differs
/// from the one the server presented.
#[derive(Clone, Debug)]
pub struct HostKeyMismatch {
    pub host: String,
    pub stored_fingerprint: String,
    pub presented_fingerprint: String,
    pub algorithm: String,
}

/// Caller decision for a host-key mismatch.
#[derive(Clone, Copy, Debug, PartialEq, Eq, Structural)]
pub enum Decision {
    /// Close the connection. The default if no callback is set.
    Reject,
    /// Proceed for this session, do not update the store.
    AcceptOnce,
    /// Proceed and overwrite the stored fingerprint.
    AcceptAndStore,
}

/// Callback the host app provides to handle a host-key mismatch.
pub type MismatchCallback = Arc<dyn Fn(HostKeyMismatch) -> Decision + Send + Sync + 'static>;

/// Holds a [`MismatchCallback`].
///
/// Opaque to verification: a callback is a trait object the library never
/// calls.
#[verifier::external_body]
pub struct MismatchHandler {
    pub callback: MismatchCallback,
}

impl Clone for MismatchHandler {
    /// Trusted: only clones the `Arc` of the callback.
    #[verifier::external_body]
    fn clone(&self) -> Self {
        MismatchHandler { callback: Arc::clone(&self.callback) }
    }
}

/// SSH session configuration.
pub struct SshConfig {
    pub host: String,
    pub port: u16,
    pub user: String,
    pub auth: SshAuth,
    pub host_key: HostKeyPolicy,
    /// If set, called on host-key mismatch. Without one the connection
    /// fails closed.
    pub on_mismatch: Option<MismatchHandler>,
    pub keepalive: Option<Duration>,
    pub connect_timeout: Duration,
    pub agent_forward: bool,
    pub env: Vec<(String, String)>,
    /// `TERM` value sent to the server.
    pub term: String,
    /// Allocate a PTY (the default); see [`SshConfig::no_pty`].
    pub allocate_pty: bool,
}

impl SshConfig {
    /// The default configuration for `user` at `host`: port 22, agent
    /// authentication, strict known-hosts checking, no mismatch callback,
    /// a 30 s keepalive, a 10 s connect timeout, no agent forwarding, no
    /// environment, `TERM=xterm-256color`, and a PTY.
    pub fn for_host(host: String, user: String) -> (c: Self)
        ensures
            c.host@ == host@,
            c.port == 22,
            c.user@ == user@,
            c.auth is Agent,
            c.host_key is StrictKnownHosts,
            c.on_mismatch is None,
            c.keepalive == Some(duration_from_secs(30)),
            c.connect_timeout == duration_from_secs(10),
            !c.agent_forward,
            c.env@.len() == 0,
            c.term@ == "xterm-256color"@,
            c.allocate_pty,
    {
        SshConfig {
            host,
            port: 22,
            user,
            auth: SshAuth::Agent,
            host_key: HostKeyPolicy::StrictKnownHosts,
            on_mismatch: None,
            keepalive: Some(secs(30)),
            connect_timeout: secs(10),
            agent_forward: false,
            env: Vec::new(),
            term: String::from_str("xterm-256color"),
            allocate_pty: true,
        }
    }

    /// The same configuration with an `exec` channel in place of a PTY.
    pub fn no_pty(self) -> (c: Self)
        ensures
            !c.allocate_pty,
            c.host == self.host,
            c.port == self.port,
            c.user == self.user,
            c.auth == self.auth,
            c.host_key == self.host_key,
            c.on_mismatch == self.on_mismatch,
            c.keepalive == self.keepalive,
            c.connect_timeout == self.connect_timeout,
            c.agent_forward == self.agent_forward,
            c.env == self.env,
            c.term == self.term,
    {
        let mut c = self;
        c.allocate_pty = false;
        c
    }
}

impl Clone for SshConfig {
    /// A copy of the configuration. The authentication method, the host
    /// key policy and the callback holder are cloned by their own `Clone`.
    fn clone(&self) -> (c: Self)
        ensures
            c.host@ == self.host@,
            c.port == self.port,
            c.user@ == self.user@,
            c.auth is Agent <==> self.auth is Agent,
            c.auth is Key <==> self.auth is Key,
            self.auth is Key ==> (c.auth->passphrase is Some <==> self.auth->passphrase is Some),
            (self.auth is Key && self.auth->passphrase is Some) ==> c.auth->passphrase->Some_0@
                == self.auth->passphrase->Some_0@,
            c.host_key is StrictKnownHosts <==> self.host_key is StrictKnownHosts,
            c.host_key is TofuStore <==> self.host_key is TofuStore,
            c.on_mismatch is Some <==> self.on_mismatch is Some,
            c.keepalive == self.keepalive,
            c.connect_timeout == self.connect_timeout,
            c.agent_forward == self.agent_forward,
            c.env@.len() == self.env@.len(),
            forall|i: int|
                0 <= i < self.env@.len() ==> (#[trigger] c.env@[i]).0@ == self.env@[i].0@
                    && c.env@[i].1@ == self.env@[i].1@,
            c.term@ == self.term@,
            c.allocate_pty == self.allocate_pty,
    {
        let on_mismatch = match &self.on_mismatch {
            Some(h) => Some(h.clone()),
            None => None,
        };
        SshConfig {
            host: self.host.clone(),
            port: self.port,
            user: self.user.clone(),
            auth: self.auth.clone(),
            host_key: self.host_key.clone(),
            on_mismatch,
            keepalive: self.keepalive,
            connect_timeout: self.connect_timeout,
            agent_forward: self.agent_forward,
            env: clone_pairs(&self.env),
            term: self.term.clone(),
            allocate_pty: self.allocate_pty,
        }
    }
}

impl Default for SshConfig {
    fn default() -> (c: Self)
        ensures
            c.host@.len() == 0,
            c.user@ == "root"@,
            c.port == 22,
            c.auth is Agent,
            c.host_key is StrictKnownHosts,
            c.on_mismatch is None,
            c.keepalive == Some(duration_from_secs(30)),
            c.connect_timeout == duration_from_secs(10),
            !c.agent_forward,
            c.env@.len() == 0,
            c.term@ == "xterm-256color"@,
            c.allocate_pty,
    {
        Self::for_host(String::new(), String::from_str("root"))
    }
}

/// SSH session backend.
pub struct SshSession {
    config: SshConfig,
}

impl SshSession {
    /// SSH sessions are not available: every call fails with an error of
    /// kind `Unsupported`.
    pub fn connect(config: SshConfig) -> (r: std::io::Result<Self>)
        ensures
            r matches Err(e) && io_error_kind(e) == std::io::ErrorKind::Unsupported,
    {
        let _ = config;
        Err(unsupported_error("SshSession::connect: SSH sessions are not available"))
    }
}

} // verus!
