//! Core of a remote terminal client: a registry of terminal byte streams and
//! a manager of authenticated remote sessions bound to those terminals.
//!
//! `terminal_manager` keeps terminals and pumps bytes between their streams
//! and notifications; `ssh_manager` drives the connect, authenticate, shell
//! and disconnect steps of each session and hands its shell to the registry.
pub mod error;
pub mod keyed;
pub mod loopback;
pub mod models;
pub mod snippet_manager;
pub mod ssh_manager;
pub mod terminal_manager;

pub use error::AppError;
pub use loopback::LoopbackStream;
pub use models::{
    AuthType, Host, HostGroup, PortForwarding, PortForwardingType, SSHKey, SSHKeyType, Session,
    SessionStatus, SessionType, Snippet,
};
pub use snippet_manager::SnippetManager;
pub use ssh_manager::{AuthMethod, ConnectTarget, SSHChannelWrapper, SSHManager};
pub use terminal_manager::{Terminal, TerminalEvent, TerminalManager, TerminalStream};
