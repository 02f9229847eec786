//! A bridge between message-oriented network clients and one shared serial
//! line.
//!
//! Each client connection is served by a [`session::Session`]: a state machine
//! that is told what happened (a frame arrived, the serial line accepted some
//! bytes, a reply was read, ...) and answers with the one thing to do next.
//! All input and output stays with the caller; every decision is taken here.
//!
//! The module [`runs`] follows one session through whole exchanges and
//! proves that a reply reaches the client byte for byte. The module
//! [`bridge`] models any number of sessions that compete for the serial line
//! through one exclusive guard, and proves that their exchanges never
//! interleave.

pub mod bridge;
pub mod frame;
pub mod runs;
pub mod session;
