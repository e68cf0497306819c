//! Hardware-facing core of a real-time microcontroller firmware image.
//!
//! Every driver in this crate is a pure function of its own state and of the
//! values that were read from the hardware. What a driver wants done to the
//! hardware it appends, in order, to a list of [`register::RegOp`]; the
//! platform layer performs that list against the real registers.

pub mod error;
pub mod register;
pub mod nvic;
pub mod gpio;
pub mod intercore;
pub mod uart;
pub mod timer;
