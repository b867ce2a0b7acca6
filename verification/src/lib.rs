//! Core of a synchronous network audio player.
//!
//! A server streams timestamped PCM chunks; the player has to start each of
//! them at the moment that the server means, though the clocks of the two
//! machines run apart. This crate holds the parts that decide: the messages
//! and their records on the wire, the binary frames, the session state
//! machine, the clock synchronisation, the PCM decoder, the deadline
//! scheduler and the orchestrator that ties them together. Every function is
//! verified against its contract; the transport and the audio device are
//! left to the caller.

pub mod audio;
pub mod error;
pub mod player;
pub mod protocol;
pub mod scheduler;
pub mod sync;
