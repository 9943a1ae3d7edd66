//! The verified core of Nonstop Notify, a desktop notification daemon: the
//! notification events and the toast store that shows them, the configuration and
//! the daemon's files, the queue and control protocols, the command line, and the
//! geometry of the notification window.
pub mod text;
pub mod actions;
pub mod cli;
pub mod event;
pub mod ipc;
pub mod layout;
pub mod runtime;
pub mod toast_store;
