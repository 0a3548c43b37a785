//! Timekeeping core of the monotonic drivers for Silicon Labs EFR32 timers.
//!
//! Two peripherals can carry a monotonic:
//! * [`letimer`]: the 24-bit low energy timer, which counts down
//! * [`rtcc`]: the 32-bit real time clock with capture, which counts up
//!
//! The core does no register access of its own. It works on register words: a
//! caller reads a word and hands it in, or writes the word that it gets back. What
//! happens in between is proved: which time a reading stands for, when an alarm
//! is met, which interrupts are counted, and in which order a timer is started.
//!
//! * [`half_period`] is the model of a counter whose wraps and half-way marks are
//!   counted by interrupts, with the laws of the time that it yields.
//! * [`counter`] is the shared count of half periods, and the reading of the time from it.
//! * [`alarm`] is the model of a compare channel, with the laws of when it fires.
//! * [`bits`] names single bits of register words.

pub mod alarm;
pub mod bits;
pub mod counter;
pub mod half_period;
pub mod letimer;
pub mod rtcc;
