//! The session gateway: address leases, admission, forwarding and lifecycle.

pub mod address_pool;
pub mod admission;
pub mod config;
pub mod control;
pub mod engine;
pub mod forwarding;
pub mod identity;
pub mod listener;
pub mod packet;
pub mod paths;
pub mod persistence;
pub mod replay;
pub mod runtime;
pub mod secure_journal;
