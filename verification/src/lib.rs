//! A bounded-concurrency scanning engine for probing which (host, username)
//! pairs accept authentication with one known private credential.
//!
//! The verified core models the scan: enumeration of the (target, username)
//! cross product, the two-tier admission discipline (a global execution
//! ceiling and a per-host connection cap), the staged life cycle of a single
//! attempt (connect, handshake, authenticate) under a connect deadline, and
//! the routing of results to a primary or a diagnostic channel. The network
//! transport itself is driven by the surrounding binary, which feeds stage
//! outcomes back into the verified attempt state machine.

pub mod attempt;
pub mod counts;
pub mod enumerate;
pub mod scheduler;
pub mod sink;
