//! Line-mode terminal panes over local or remote shells: the byte-to-line
//! assembler, the per-session decisions and the pane wiring.

pub mod ansi;
pub mod backend;
pub mod live_multi;
pub mod multi_terminal;
pub mod text;

pub use ansi::{AnsiHandler, LineKind, TerminalLine};
pub use backend::local::{LocalShell, LocalShellConfig};
pub use backend::ssh::{
    Decision, HostKeyMismatch, HostKeyPolicy, MismatchCallback, MismatchHandler, SshAuth,
    SshConfig, SshSession,
};
pub use backend::{
    BackendEvent, CloseReason, Session, SessionAction, SessionEvent, TerminalBackend,
    TerminalStatus, UiToBackend,
};
pub use live_multi::OverflowPolicy;
