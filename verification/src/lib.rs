//! Erlang-style actors, supervision trees and monitors: the decisions, verified.
//!
//! | Concept                        | Where                                            |
//! |--------------------------------|--------------------------------------------------|
//! | addresses, bounded mailboxes   | [`actor`]                                        |
//! | request and reply              | [`ask`]                                          |
//! | the life of an actor's task    | [`lifecycle`]                                    |
//! | supervisor and child specs     | [`supervisor`]                                   |
//! | the supervision loop           | [`supervision`], with its laws in [`supervision_laws`] |
//! | the restart limit              | [`restart_window`]                               |
//! | down messages, heartbeats      | [`monitor`]                                      |
//! | reading how a task ended       | [`join`]                                         |
//!
//! Whatever waits (for a message, a reply, a child, a timer) is left to the
//! runtime around this crate. It reports how a wait ended and carries out what
//! the functions here decide.

pub mod actor;
pub mod ask;
pub mod join;
pub mod lifecycle;
pub mod monitor;
pub mod restart_window;
pub mod supervision;
pub mod supervision_laws;
pub mod supervisor;
pub mod text;

pub use actor::{Addr, AskError, Context, MailboxFull};
pub use monitor::{DownReason, Heartbeat};
pub use supervision::Supervision;
pub use supervisor::{ChildSpec, Restart, Supervised, Supervisor, SupervisorSpec};
