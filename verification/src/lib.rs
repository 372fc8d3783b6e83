//! A cooperative task scheduler and cross-thread mailbox for a GUI thread.
//!
//! The heart of the crate is a pair of state machines:
//!
//! * [`executor`] — a run queue of ready tasks, polled cooperatively on the
//!   thread that owns the executor, with an at-most-one-wakeup-in-flight
//!   signalling discipline and a fairness cap on polls per wakeup cycle.
//! * [`messenger`] — a typed multi-producer single-consumer mailbox whose
//!   consumer drains each queue in FIFO order and hands every message to a
//!   registered receiver, plus a one-shot background-completion queue.
//!
//! Neither machine owns a native event loop. Every operation that would
//! post a wakeup message to a signal window instead reports the request to
//! its caller, which is expected to deliver it (and to call the poll
//! entry points when the signal arrives). The remaining modules model the
//! plain value types of the surrounding widget toolkit: colours, menu item
//! state words, option sets, and an arena-backed tree.

pub mod asyncui;
pub mod background;
pub mod brush;
pub mod button;
pub mod color;
pub mod control;
pub mod error;
pub mod executor;
pub mod font;
pub mod layout;
pub mod list_view;
pub mod menu;
pub mod messenger;
pub mod msg;
pub mod notify;
pub mod options;
pub mod prop_sheet;
pub mod style;
pub mod tree;
pub mod window;
