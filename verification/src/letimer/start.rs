//! The steps that start the LETIMER.

use vstd::prelude::*;

use crate::bits;
use crate::letimer::registers;
use crate::letimer::{Prescaler, HALF_PERIOD_CNT};

verus! {

/// How often a count of zero is waited out.
///
/// CNT reads zero while the start crosses into the low-frequency clock domain.
pub const MAX_SPINS: u32 = 1_000_000;

/// What a caller has to do next to start the timer.
#[derive(Clone, Copy, Debug, PartialEq, Eq, Structural)]
pub enum StartAction {
    /// Modify CLKEN0 of the clock unit.
    EnableClock,
    /// Write CTRL.
    SetPrescaler,
    /// Give up: the timer cannot run at the tick rate asked for.
    RefuseTickRate,
    /// Write EN.
    EnableTimer,
    /// Write COMP1.
    SetHalfPeriod,
    /// Write CMD.
    StartTimer,
    /// Read CNT, and hand the word to [`Start::advance`].
    AwaitCount,
    /// Write IF_CLR.
    ClearFlags,
    /// Read CNT, and seed the count of half periods from it.
    SeedHalfPeriods,
    /// Hand the timer to the timer queue.
    InitializeQueue,
    /// Write IEN.
    EnableInterrupts,
    /// Set the priority of the interrupt and unmask it.
    UnmaskInterrupt,
    /// Nothing: the timer runs.
    Done,
}

/// A start of the timer, before the step `action`.
#[derive(Clone, Copy, Debug, PartialEq, Eq, Structural)]
pub struct Start {
    /// The division for the tick rate asked for, where there is one.
    pub prescaler: Option<Prescaler>,
    /// What is to be done next.
    pub action: StartAction,
    /// How often a count of zero was waited out so far.
    pub spins: u32,
}

impl Start {
    /// Where a start can be.
    pub open spec fn wf(self) -> bool {
        &&& self.spins <= MAX_SPINS
        &&& self.action != StartAction::EnableClock ==> (self.prescaler is None <==> self.action
            == StartAction::RefuseTickRate)
        &&& self.action.rank() < StartAction::AwaitCount.rank() ==> self.spins == 0
    }

    /// The step after `action`, with the word `cnt` of CNT for a step that waits for it.
    pub open spec fn after(self, cnt: u32) -> Start {
        match self.action {
            StartAction::EnableClock => if self.prescaler is Some {
                self.at(StartAction::SetPrescaler)
            } else {
                self.at(StartAction::RefuseTickRate)
            },
            StartAction::SetPrescaler => self.at(StartAction::EnableTimer),
            StartAction::RefuseTickRate => self,
            StartAction::EnableTimer => self.at(StartAction::SetHalfPeriod),
            StartAction::SetHalfPeriod => self.at(StartAction::StartTimer),
            StartAction::StartTimer => self.at(StartAction::AwaitCount),
            StartAction::AwaitCount => if bits::low24(cnt) == 0 && self.spins < MAX_SPINS {
                Start { spins: (self.spins + 1) as u32, ..self }
            } else {
                self.at(StartAction::ClearFlags)
            },
            StartAction::ClearFlags => self.at(StartAction::SeedHalfPeriods),
            StartAction::SeedHalfPeriods => self.at(StartAction::InitializeQueue),
            StartAction::InitializeQueue => self.at(StartAction::EnableInterrupts),
            StartAction::EnableInterrupts => self.at(StartAction::UnmaskInterrupt),
            StartAction::UnmaskInterrupt => self.at(StartAction::Done),
            StartAction::Done => self,
        }
    }

    /// This start at another step.
    pub open spec fn at(self, action: StartAction) -> Start {
        Start { action, ..self }
    }

    /// The start after a step for each word of `counts`.
    pub open spec fn after_all(self, counts: Seq<u32>) -> Start
        decreases counts.len(),
    {
        if counts.len() == 0 {
            self
        } else {
            self.after_all(counts.drop_last()).after(counts.last())
        }
    }

    /// The register word that the next step writes, from the word `word`.
    pub open spec fn filled(self, word: u32) -> u32 {
        match self.action {
            StartAction::EnableClock => bits::with_bit(word, registers::CLKEN0_LETIMER0, true),
            StartAction::SetPrescaler => match self.prescaler {
                Some(p) => registers::with_cntpresc(word, p.code()),
                None => word,
            },
            StartAction::EnableTimer => bits::with_bit(word, registers::EN_EN, true),
            StartAction::SetHalfPeriod => bits::with_low24(word, HALF_PERIOD_CNT),
            StartAction::StartTimer => bits::with_bit(word, registers::CMD_START, true),
            StartAction::ClearFlags => bits::with_bit(
                bits::with_bit(
                    bits::with_bit(word, registers::UF, true),
                    registers::COMP0,
                    true,
                ),
                registers::COMP1,
                true,
            ),
            StartAction::EnableInterrupts => bits::with_bit(
                bits::with_bit(word, registers::UF, true),
                registers::COMP1,
                true,
            ),
            _ => word,
        }
    }

    /// Moves on to the next step, after the step `action` was done.
    ///
    /// `cnt` is the word read from CNT where the step was to wait for it, and is not
    /// looked at after other steps.
    pub fn advance(&mut self, cnt: u32)
        ensures
            *final(self) == old(self).after(cnt),
            old(self).wf() ==> final(self).wf(),
    {
        match self.action {
            StartAction::EnableClock => match self.prescaler {
                Some(_) => {
                    self.action = StartAction::SetPrescaler;
                },
                None => {
                    self.action = StartAction::RefuseTickRate;
                },
            },
            StartAction::SetPrescaler => {
                self.action = StartAction::EnableTimer;
            },
            StartAction::EnableTimer => {
                self.action = StartAction::SetHalfPeriod;
            },
            StartAction::SetHalfPeriod => {
                self.action = StartAction::StartTimer;
            },
            StartAction::StartTimer => {
                self.action = StartAction::AwaitCount;
            },
            StartAction::AwaitCount => {
                if registers::cnt_cnt(cnt) == 0 && self.spins < MAX_SPINS {
                    self.spins = self.spins + 1;
                } else {
                    self.action = StartAction::ClearFlags;
                }
            },
            StartAction::ClearFlags => {
                self.action = StartAction::SeedHalfPeriods;
            },
            StartAction::SeedHalfPeriods => {
                self.action = StartAction::InitializeQueue;
            },
            StartAction::InitializeQueue => {
                self.action = StartAction::EnableInterrupts;
            },
            StartAction::EnableInterrupts => {
                self.action = StartAction::UnmaskInterrupt;
            },
            StartAction::UnmaskInterrupt => {
                self.action = StartAction::Done;
            },
            StartAction::RefuseTickRate | StartAction::Done => {},
        }
    }

    /// The register word that the next step writes, from the word `word`: what a write
    /// starts from, or what the register holds where it is modified.
    pub fn word(&self, word: u32) -> (written: u32)
        ensures
            written == self.filled(word),
    {
        match self.action {
            StartAction::EnableClock => registers::clken0_set_letimer0(word, true),
            StartAction::SetPrescaler => match self.prescaler {
                Some(prescaler) => registers::ctrl_set_cntpresc(word, prescaler),
                None => word,
            },
            StartAction::EnableTimer => registers::en_set_en(word, true),
            StartAction::SetHalfPeriod => registers::comp1_set_comp1(word, HALF_PERIOD_CNT),
            StartAction::StartTimer => registers::cmd_set_start(word, true),
            StartAction::ClearFlags => {
                let word: u32 = registers::if_set_uf(word, true);
                let word: u32 = registers::if_set_comp0(word, true);
                registers::if_set_comp1(word, true)
            },
            StartAction::EnableInterrupts => {
                let word: u32 = registers::ien_set_uf(word, true);
                registers::ien_set_comp1(word, true)
            },
            _ => word,
        }
    }
}

impl StartAction {
    /// The place of a step in the order of the steps.
    pub open spec fn rank(self) -> nat {
        match self {
            StartAction::EnableClock => 0,
            StartAction::SetPrescaler => 1,
            StartAction::RefuseTickRate => 1,
            StartAction::EnableTimer => 2,
            StartAction::SetHalfPeriod => 3,
            StartAction::StartTimer => 4,
            StartAction::AwaitCount => 5,
            StartAction::ClearFlags => 6,
            StartAction::SeedHalfPeriods => 7,
            StartAction::InitializeQueue => 8,
            StartAction::EnableInterrupts => 9,
            StartAction::UnmaskInterrupt => 10,
            StartAction::Done => 11,
        }
    }
}

} // verus!
