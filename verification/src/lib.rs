//! Readiness selection over a kernel event queue.
//!
//! A caller registers interest in a descriptor under a token, waits, and gets
//! one readiness record per token. The kernel queue keeps the two directions
//! of a descriptor as separate filters and reports them in separate raw
//! events, so this crate goes both ways: from an interest to the two filter
//! changes that express it, with the policy on what their receipts mean, and
//! from a batch of raw events to the records that it comes to.
//!
//! Nothing here makes a system call. Each operation is cut where the call
//! stands: `Selector::register` builds the changes and
//! `Selector::check_register` judges the receipts; `Selector::wait_timeout`
//! prepares a wait and `Selector::select` ends it.

pub mod coalesce;
pub mod error;
pub mod event;
pub mod events;
pub mod poll_opt;
pub mod ready;
pub mod selector;
pub mod sys;
pub mod token;

pub use crate::error::Error;
pub use crate::event::Event;
pub use crate::events::Events;
pub use crate::poll_opt::PollOpt;
pub use crate::ready::Ready;
pub use crate::selector::Selector;
pub use crate::token::Token;
