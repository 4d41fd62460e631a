//! Verified core of a video platform's viewed-event broadcast.
//!
//! A video-delivery service announces every play on a fanout exchange; each
//! running subscriber owns an exclusive queue bound to that exchange and
//! settles the deliveries it receives one at a time.
//!
//! - `event` holds the wire format of the event, `json` the codec under it.
//! - `protocol` and `topology` hold the commands a service sends to the
//!   broker and the declarations each role makes.
//! - `connection`, `bootstrap`, `publisher` and `consumer` hold the
//!   decisions of each part as a machine: it issues one command at a time,
//!   the caller performs it and hands back the reply.  `guard` shows that
//!   the machines of one process write to the channel one at a time.
//! - `broker`, `names` and `store` hold a reference model of the broker and
//!   of a record store, and `pipeline` drives the machines against them and
//!   states what the pipeline does from end to end.  `cluster` shows that
//!   this holds up when many services run at once.
//! - `settings`, `upload` and `accounts` hold the small rules of the
//!   services around the pipeline, and `numerals` what reading a number from
//!   a text comes to.
//!
//! Network and storage round trips are left to the caller.

pub mod json;
pub mod event;
pub mod protocol;
pub mod topology;
pub mod connection;
pub mod bootstrap;
pub mod consumer;
pub mod publisher;
pub mod guard;
pub mod names;
pub mod numerals;
pub mod broker;
pub mod store;
pub mod pipeline;
pub mod cluster;
pub mod settings;
pub mod upload;
pub mod accounts;
