//! The steps that start the RTCC.

use vstd::prelude::*;

use crate::bits;
use crate::rtcc::registers;
use crate::rtcc::registers::ChannelMode;
use crate::rtcc::HALF_PERIOD;

verus! {

/// What a caller has to do next to start the timer.
#[derive(Clone, Copy, Debug, PartialEq, Eq, Structural)]
pub enum StartAction {
    /// Modify CLKEN0 of the clock unit.
    EnableClock,
    /// Write EN.
    EnableTimer,
    /// Write CC0_CTRL.
    SetHalfPeriodMode,
    /// Write CC0_OCVALUE.
    SetHalfPeriod,
    /// Write CC1_CTRL.
    SetAlarmMode,
    /// Write CMD.
    StartTimer,
    /// Write IF_CLR.
    ClearFlags,
    /// Read CNT, and seed the count of half periods from it.
    SeedHalfPeriods,
    /// Hand the timer to the timer queue.
    InitializeQueue,
    /// Write IEN.
    EnableInterrupts,
    /// Set the priority of the interrupt and unmask it.
    UnmaskInterrupt,
    /// Nothing: the timer runs.
    Done,
}

impl StartAction {
    /// The place of a step in the order of the steps.
    pub open spec fn rank(self) -> nat {
        match self {
            StartAction::EnableClock => 0,
            StartAction::EnableTimer => 1,
            StartAction::SetHalfPeriodMode => 2,
            StartAction::SetHalfPeriod => 3,
            StartAction::SetAlarmMode => 4,
            StartAction::StartTimer => 5,
            StartAction::ClearFlags => 6,
            StartAction::SeedHalfPeriods => 7,
            StartAction::InitializeQueue => 8,
            StartAction::EnableInterrupts => 9,
            StartAction::UnmaskInterrupt => 10,
            StartAction::Done => 11,
        }
    }
}

/// A start of the timer, before the step `action`.
#[derive(Clone, Copy, Debug, PartialEq, Eq, Structural)]
pub struct Start {
    /// What is to be done next.
    pub action: StartAction,
}

impl Start {
    /// The register word that the next step writes, from the word `word`.
    pub open spec fn filled(self, word: u32) -> u32 {
        match self.action {
            StartAction::EnableClock => bits::with_bit(word, registers::CLKEN0_RTCC, true),
            StartAction::EnableTimer => bits::with_bit(word, registers::EN_EN, true),
            StartAction::SetHalfPeriodMode => registers::with_mode(
                word,
                ChannelMode::OutputCompare.code(),
            ),
            StartAction::SetHalfPeriod => HALF_PERIOD,
            StartAction::SetAlarmMode => registers::with_mode(
                word,
                ChannelMode::OutputCompare.code(),
            ),
            StartAction::StartTimer => bits::with_bit(word, registers::CMD_START, true),
            StartAction::ClearFlags => bits::with_bit(
                bits::with_bit(
                    bits::with_bit(word, registers::OF, true),
                    registers::CC0,
                    true,
                ),
                registers::CC1,
                true,
            ),
            StartAction::EnableInterrupts => bits::with_bit(
                bits::with_bit(word, registers::OF, true),
                registers::CC0,
                true,
            ),
            _ => word,
        }
    }

    /// Moves on to the next step, after the step `action` was done. The last step stays.
    pub fn advance(&mut self)
        ensures
            old(self).action == StartAction::Done ==> final(self).action == StartAction::Done,
            old(self).action != StartAction::Done ==> final(self).action.rank()
                == old(self).action.rank() + 1,
            old(self).action == StartAction::EnableClock ==> final(self).action
                == StartAction::EnableTimer,
            old(self).action == StartAction::EnableTimer ==> final(self).action
                == StartAction::SetHalfPeriodMode,
            old(self).action == StartAction::SetHalfPeriodMode ==> final(self).action
                == StartAction::SetHalfPeriod,
            old(self).action == StartAction::SetHalfPeriod ==> final(self).action
                == StartAction::SetAlarmMode,
            old(self).action == StartAction::SetAlarmMode ==> final(self).action
                == StartAction::StartTimer,
            old(self).action == StartAction::StartTimer ==> final(self).action
                == StartAction::ClearFlags,
            old(self).action == StartAction::ClearFlags ==> final(self).action
                == StartAction::SeedHalfPeriods,
            old(self).action == StartAction::SeedHalfPeriods ==> final(self).action
                == StartAction::InitializeQueue,
            old(self).action == StartAction::InitializeQueue ==> final(self).action
                == StartAction::EnableInterrupts,
            old(self).action == StartAction::EnableInterrupts ==> final(self).action
                == StartAction::UnmaskInterrupt,
            old(self).action == StartAction::UnmaskInterrupt ==> final(self).action
                == StartAction::Done,
    {
        self.action = match self.action {
            StartAction::EnableClock => StartAction::EnableTimer,
            StartAction::EnableTimer => StartAction::SetHalfPeriodMode,
            StartAction::SetHalfPeriodMode => StartAction::SetHalfPeriod,
            StartAction::SetHalfPeriod => StartAction::SetAlarmMode,
            StartAction::SetAlarmMode => StartAction::StartTimer,
            StartAction::StartTimer => StartAction::ClearFlags,
            StartAction::ClearFlags => StartAction::SeedHalfPeriods,
            StartAction::SeedHalfPeriods => StartAction::InitializeQueue,
            StartAction::InitializeQueue => StartAction::EnableInterrupts,
            StartAction::EnableInterrupts => StartAction::UnmaskInterrupt,
            StartAction::UnmaskInterrupt => StartAction::Done,
            StartAction::Done => StartAction::Done,
        };
    }

    /// The register word that the next step writes, from the word `word`: what a write
    /// starts from, or what the register holds where it is modified.
    pub fn word(&self, word: u32) -> (written: u32)
        ensures
            written == self.filled(word),
    {
        match self.action {
            StartAction::EnableClock => registers::clken0_set_rtcc(word, true),
            StartAction::EnableTimer => registers::en_set_en(word, true),
            StartAction::SetHalfPeriodMode => registers::cc0_ctrl_set_mode(
                word,
                ChannelMode::OutputCompare,
            ),
            StartAction::SetHalfPeriod => registers::cc0_ocvalue_set_oc(word, HALF_PERIOD),
            StartAction::SetAlarmMode => registers::cc1_ctrl_set_mode(
                word,
                ChannelMode::OutputCompare,
            ),
            StartAction::StartTimer => registers::cmd_set_start(word, true),
            StartAction::ClearFlags => {
                let word: u32 = registers::if_set_of(word, true);
                let word: u32 = registers::if_set_cc0(word, true);
                registers::if_set_cc1(word, true)
            },
            StartAction::EnableInterrupts => {
                let word: u32 = registers::ien_set_of(word, true);
                registers::ien_set_cc0(word, true)
            },
            _ => word,
        }
    }
}

} // verus!
