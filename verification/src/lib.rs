//! Transactional command/event dispatch core of a small discussion-board
//! service: a message bus that resolves exactly one handler per command,
//! runs it inside a unit of work, records externally notifiable events in
//! an outbox table within the same transaction, and then drains the
//! in-process event queue, dispatching each event to its registered
//! handlers in order.
//!
//! The relational store is modelled as an explicit in-memory value with
//! begin/commit/rollback transaction semantics, so every rule of the core
//! (optimistic concurrency, outbox atomicity, event cascade, sentinel
//! halting) is stated in contracts and proved.

pub mod aggregate;
pub mod auth;
pub mod bootstrap;
pub mod commands;
pub mod database;
pub mod entity;
pub mod errors;
pub mod events;
pub mod handlers;
pub mod json;
pub mod messagebus;
pub mod outbox;
pub mod repository;
pub mod support;
pub mod unit_of_work;
pub mod web;
