//! Core of a market-quote relay. Adapters ("rustlers") collect quotes from
//! upstream data sources; a supervisor starts and stops them on the trading
//! windows of their markets and publishes what they collect on a bus; a
//! gateway relays the bus to clients.
//!
//! This crate holds the decisions of those parts and proves them: the message
//! model and its codec ([`rustlers::quote`], [`text`]), the keys and commands
//! of the bus and its local fan-out ([`bus`]), the life cycle of an adapter
//! ([`rustlers::rustler`]), the registry of adapters
//! ([`rustlers::rustlerjar`]), recurrence rules ([`sched`]), the supervisor
//! ([`rustlers::svc`]) and the gateway's frame handling ([`socket`]). What
//! waits on a network or a timer is left to the program around it, which
//! performs the steps that the functions here hand back.

pub mod bus;
pub mod entities;
pub mod rustlers;
pub mod sched;
pub mod socket;
pub mod strmap;
pub mod text;
