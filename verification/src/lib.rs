//! A reactive supervisor core: given a stream of keyed configuration
//! events ("this key's configuration changed / this key was removed"),
//! it keeps a set of per-key background routines ("subcontrollers") in
//! sync with the latest configuration, restarting them on every change
//! and stopping them when the key disappears.
//!
//! The crate verifies the task-lifecycle engine itself: the
//! cancel-then-restart protocol between generations of one
//! subcontroller's work ([`task`]), the dispatch contract between the
//! event loop and the subcontroller set ([`runner`]), and the
//! set-difference logic behind the discovery event producer
//! ([`subscriber`]). The asynchronous shell that pulls events from a
//! live cluster and spawns the actual background tasks sits outside the
//! verified core and drives it through these types.

pub mod config;
pub mod runner;
pub mod subscriber;
pub mod task;

pub use config::Config;
pub use runner::RunError;
pub use runner::Runner;
