//! Command text handling for a triage bot: a tokenizer, the grammar of the
//! notification-management commands, a per-owner notification list, the
//! relabel permission filter, and the decisions of event dispatch.

pub mod text;
pub mod token;
pub mod delegation;
pub mod handlers;
pub mod manage_notifs;
pub mod notifications;
pub mod relabel;
pub mod team;
pub mod zulip;
