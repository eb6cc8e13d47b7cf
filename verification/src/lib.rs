//! Blocking delay provider built on the Cortex-M system timer (SysTick).
//!
//! A [`delay::Delay`] owns the SysTick peripheral together with a snapshot of
//! the core clock frequency and turns a requested duration into a number of
//! timer ticks.  Because the SysTick reload register is only 24 bits wide,
//! a long delay is driven as a series of chunks, each at most
//! [`ticks::MAX_RELOAD`] ticks; the [`ticks`] module holds that chunking
//! model and the proofs about it, while [`delay`] holds the driver itself.

pub mod ticks;

pub mod delay;
