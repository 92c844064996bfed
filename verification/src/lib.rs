//! Control plane for the introduction points of an onion service.
//!
//! An onion service must keep a set of introduction points (IPTs) alive at
//! chosen relays, decide which of them are stable enough to publish, and
//! upload fresh descriptors naming them to the responsible directory relays
//! (HsDirs).  This crate holds the decision logic of that control plane:
//! the IPT manager's state machine, the publisher's per-time-period state,
//! the shared hand-off structure between the two, and the persistent
//! inventory format.
//!
//! The surrounding tasks (network I/O, timers, the establisher tasks, the
//! on-disk keystore) stay outside: they feed events in as plain values and
//! carry the requested actions out.

pub mod authclient;
pub mod config;
pub mod errors;
pub mod ids;
pub mod ipt;
pub mod ipt_mgr;
pub mod ipt_set;
pub mod keystore;
pub mod laws;
pub mod merge_join;
pub mod persist;
pub mod publish;
pub mod revision;
pub mod seqx;
