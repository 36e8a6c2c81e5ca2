//! Vendor-agnostic access to a PC's onboard fan and temperature sensors.
//!
//! Two hardware paths are modelled:
//!
//! - direct register decoding of a Super I/O auxiliary controller, reached
//!   through a byte-oriented port bus (`bus::SioBus`); chip detection and
//!   bit-level sensor decode live in `detect`, `nuvoton` and `ite`;
//! - an ASUS management interface reached through WMI; backend selection and
//!   the per-backend request/response rules live in `backend`, `policy` and
//!   `asushw`.
//!
//! All hardware I/O is performed by the embedding application; this crate
//! holds the protocol logic, the decision rules and the decoders, each with
//! a proved contract.

pub mod asio;
pub mod asushw;
pub mod aura;
pub mod backend;
pub mod bus;
pub mod chips;
pub mod config;
pub mod decode;
pub mod detect;
pub mod error;
pub mod ite;
pub mod lhm;
pub mod lpc;
pub mod monitor;
pub mod nuvoton;
pub mod policy;
