//! Decisions of the `buzz-acp` agent harness: the agent's core memory, the persona check at startup,
//! the clean-exit restart, and the seat's reports about itself.
//!
//! The library reads no file, clock or socket. Where work alternates with I/O, a machine says what
//! to do next and takes in what came of it ([`persona_check::PersonaProbe`],
//! [`restart_driver::RestartDriver`], [`reporter::Pacing`]).
pub mod digest;
pub mod engram_fetch;
pub mod event;
pub mod json;
pub mod numeral;
pub mod persona_check;
pub mod reporter;
pub mod restart;
pub mod restart_driver;
pub mod self_report;
pub mod text;
