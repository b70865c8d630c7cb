//! The PHP side of an embedded Kafka worker.
//!
//! PHP processes on one machine share a worker process, which talks to Kafka, over a Unix
//! socket. This library holds what the PHP extension decides: how the worker is started
//! ([`spawn`], [`worker_health`]) and configured ([`ini_config`]), how connections to it
//! are kept ([`pool`]), how requests and answers are put into frames ([`protocol`],
//! [`error`]), and what the PHP functions make of their arguments and of the answers
//! ([`php`]). Sockets, processes, clocks and the engine of PHP are left to the caller.

pub mod arguments;
pub mod error;
pub mod ini_config;
pub mod messages;
pub mod number;
pub mod path;
pub mod php;
pub mod php_value;
pub mod pool;
pub mod protocol;
pub mod spawn;
pub mod text;
pub mod wire;
pub mod worker_health;
