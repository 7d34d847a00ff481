//! Relay between a field weather station and its subscribers.
//!
//! Telemetry payloads are decoded into measurements, banded into
//! human-readable annotations, fanned out to every registered subscriber
//! and recorded in an append-only log.
//!
//! The crate talks to nobody itself.  Numbers are held as the bit patterns of
//! single-precision values and handled in integer arithmetic; the relay of a
//! payload is a state machine that names the next thing to do and takes its
//! outcome back.  Every function is verified against the contract written on
//! it, but for two that call out: the reading of the clock and the check of a
//! payload's encoding.

mod clock;
pub mod decimal;
pub mod dispatch;
pub mod enrollment;
pub mod measure;
pub mod mmhg;
pub mod pipeline;
pub mod reading;
pub mod registry;
pub mod settings;
pub mod telemetry;
