//! The core of an organizational reasoning assistant, verified with Verus.
//!
//! Callers say something; a two-stage pipeline turns it into an event and
//! then into a decision or update; the result becomes a new version in a
//! versioned knowledge graph and a reasoning trace, which is handed to each
//! viewer as far as that viewer may see it.
//!
//! - [`event_bus`]: the FIFO intake queue for events.
//! - [`pipeline`]: the two stages, reading completions that may or may not
//!   be JSON.
//! - [`store`]: append-only version chains with one current version each.
//! - [`visibility`]: who may see how much of a trace.
//! - [`broadcast`]: fan-out to subscribers through bounded buffers.
//! - [`service`]: asking and ingesting, as the stretches of decisions
//!   between two pieces of outside work.
//! - [`api`]: what a request must pass before work is done for it.
//! - [`graph`], [`email`], [`flow`]: reading the graph, reading e-mail, and
//!   the interactive flow.
//! - [`domain`], [`app_state`]: the data model and the shared state.
//! - [`json`], [`text`], [`string_map`]: the primitives underneath.
//!
//! Every function states what it returns over mathematical views of its
//! arguments, and Verus proves that it does. What is taken on trust is each
//! marked as such where it stands: a handful of calls into `serde_json`,
//! `base64`, `uuid`, `chrono` and the standard library.

pub mod api;
pub mod app_state;
pub mod broadcast;
pub mod domain;
pub mod email;
pub mod event_bus;
pub mod flow;
pub mod graph;
pub mod json;
pub mod pipeline;
pub mod service;
pub mod store;
pub mod string_map;
pub mod text;
pub mod visibility;
