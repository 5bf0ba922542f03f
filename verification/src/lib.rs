//! StreamGuard gateway: the tunnel's flow table and the V2 admission plane.
//!
//! Everything here is a state machine or a pure function with a contract:
//! sockets, files, clocks and tasks belong to the program around it.

pub mod arith;
pub mod cli;
pub mod encoding;
pub mod id_map;
pub mod ids;
pub mod text;
pub mod time;
pub mod tunnel;
pub mod v2;
