# silabs_monotonic

A verified timekeeping core for monotonics on the timers of the Silicon Labs EFR32MG22,
and the thin layer that runs it on the chip.

* `src/` is the core, verified with Verus. It turns register words into times, alarms
  and counts, and does no register access of its own.
  * `half_period`: time from a wrapping counter whose half periods are counted
  * `alarm`: when a compare channel fires
  * `counter`: the shared count, and the reading of the time from it
  * `letimer`: the 24-bit low energy timer
  * `rtcc`: the 32-bit real time clock with capture
  * each timer has `start`, the steps that start it; `registers`, the fields of its
    registers; and `laws`, what holds of it as a time base
* `tests/` runs the core on the host.
* `app/` reads and writes the registers, holds the statics, implements the timer queue
  backends and the macros that define a monotonic.

What is not proved is stated where it is used: the functions marked
`#[verifier::external_body]` in `counter` and in the two `registers` modules each call
one function of another crate, and their contracts say what is claimed of it.
