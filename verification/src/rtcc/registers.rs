//! Fields of the RTCC registers, and of the clock register that feeds it.
//!
//! Each function stands for one field accessor of `silabs_metapac`, applied to a raw
//! register word.

use silabs_metapac::rtcc_v1::vals::{Cc0CtrlMode, Cc1CtrlMode};
use silabs_metapac::{cmu_v1, rtcc_v1};
use vstd::prelude::*;

use crate::bits;

verus! {

/// Number of the bit RTCC of CLKEN0.
pub const CLKEN0_RTCC: u32 = 30;

/// Number of the bit EN of EN.
pub const EN_EN: u32 = 0;

/// Number of the bit START of CMD.
pub const CMD_START: u32 = 0;

/// Number of the bit OF, the overflow, of IF and IEN.
pub const OF: u32 = 0;

/// Number of the bit CC0, the half-way mark, of IF and IEN.
pub const CC0: u32 = 4;

/// Number of the bit CC1, the alarm, of IF and IEN.
pub const CC1: u32 = 6;

/// What a compare channel does.
#[derive(Clone, Copy, Debug, PartialEq, Eq, Structural)]
pub enum ChannelMode {
    /// Nothing.
    Off,
    /// It captures the counter on an input.
    InputCapture,
    /// It fires where the counter shows its value.
    OutputCompare,
}

impl ChannelMode {
    /// The value of the field MODE for this mode.
    pub open spec fn code(self) -> u32 {
        match self {
            ChannelMode::Off => 0,
            ChannelMode::InputCapture => 1,
            ChannelMode::OutputCompare => 2,
        }
    }
}

/// `word` with its field MODE, of CC0_CTRL or CC1_CTRL, set to `code`.
pub open spec fn with_mode(word: u32, code: u32) -> u32 {
    (word & 0xffff_fffc) | code
}

/// Calls `silabs_metapac::cmu_v1::regs::Clken0::set_rtcc` on a register word: the bit RTCC
/// becomes `val`, the other bits stay.
#[verifier::external_body]
pub(crate) fn clken0_set_rtcc(word: u32, val: bool) -> (written: u32)
    ensures
        written == bits::with_bit(word, CLKEN0_RTCC, val),
{
    let mut reg = cmu_v1::regs::Clken0(word);
    reg.set_rtcc(val);
    reg.0
}

/// Calls `silabs_metapac::rtcc_v1::regs::En::set_en` on a register word: the bit EN
/// becomes `val`, the other bits stay.
#[verifier::external_body]
pub(crate) fn en_set_en(word: u32, val: bool) -> (written: u32)
    ensures
        written == bits::with_bit(word, EN_EN, val),
{
    let mut reg = rtcc_v1::regs::En(word);
    reg.set_en(val);
    reg.0
}

/// Calls `silabs_metapac::rtcc_v1::regs::Cmd::set_start` on a register word: the bit START
/// becomes `val`, the other bits stay.
#[verifier::external_body]
pub(crate) fn cmd_set_start(word: u32, val: bool) -> (written: u32)
    ensures
        written == bits::with_bit(word, CMD_START, val),
{
    let mut reg = rtcc_v1::regs::Cmd(word);
    reg.set_start(val);
    reg.0
}

/// Calls `silabs_metapac::rtcc_v1::regs::Cc0Ctrl::set_mode` on a register word: the field
/// MODE becomes the code of the variant of `Cc0CtrlMode` that has the name of `mode`, the
/// other bits stay.
#[verifier::external_body]
pub(crate) fn cc0_ctrl_set_mode(word: u32, mode: ChannelMode) -> (written: u32)
    ensures
        written == with_mode(word, mode.code()),
{
    let mut reg = rtcc_v1::regs::Cc0Ctrl(word);
    reg.set_mode(match mode {
        ChannelMode::Off => Cc0CtrlMode::Off,
        ChannelMode::InputCapture => Cc0CtrlMode::Inputcapture,
        ChannelMode::OutputCompare => Cc0CtrlMode::Outputcompare,
    });
    reg.0
}

/// Calls `silabs_metapac::rtcc_v1::regs::Cc1Ctrl::set_mode` on a register word: the field
/// MODE becomes the code of the variant of `Cc1CtrlMode` that has the name of `mode`, the
/// other bits stay.
#[verifier::external_body]
pub(crate) fn cc1_ctrl_set_mode(word: u32, mode: ChannelMode) -> (written: u32)
    ensures
        written == with_mode(word, mode.code()),
{
    let mut reg = rtcc_v1::regs::Cc1Ctrl(word);
    reg.set_mode(match mode {
        ChannelMode::Off => Cc1CtrlMode::Off,
        ChannelMode::InputCapture => Cc1CtrlMode::Inputcapture,
        ChannelMode::OutputCompare => Cc1CtrlMode::Outputcompare,
    });
    reg.0
}

/// Calls `silabs_metapac::rtcc_v1::regs::Cc0Ocvalue::set_oc` on a register word: the field
/// fills the register, so the word becomes `val`.
#[verifier::external_body]
pub(crate) fn cc0_ocvalue_set_oc(word: u32, val: u32) -> (written: u32)
    ensures
        written == val,
{
    let mut reg = rtcc_v1::regs::Cc0Ocvalue(word);
    reg.set_oc(val);
    reg.0
}

/// Calls `silabs_metapac::rtcc_v1::regs::Cc1Ocvalue::set_oc` on a register word: the field
/// fills the register, so the word becomes `val`.
#[verifier::external_body]
pub(crate) fn cc1_ocvalue_set_oc(word: u32, val: u32) -> (written: u32)
    ensures
        written == val,
{
    let mut reg = rtcc_v1::regs::Cc1Ocvalue(word);
    reg.set_oc(val);
    reg.0
}

/// Calls `silabs_metapac::rtcc_v1::regs::Cnt::cnt` on a register word: the field fills the
/// register, so it is the word itself.
#[verifier::external_body]
pub(crate) fn cnt_cnt(word: u32) -> (cnt: u32)
    ensures
        cnt == word,
{
    rtcc_v1::regs::Cnt(word).cnt()
}

/// Calls `silabs_metapac::rtcc_v1::regs::If::of` on a register word: tells whether
/// the bit OF is one.
#[verifier::external_body]
pub(crate) fn if_of(word: u32) -> (set: bool)
    ensures
        set == bits::has_bit(word, OF),
{
    rtcc_v1::regs::If(word).of()
}

/// Calls `silabs_metapac::rtcc_v1::regs::If::cc0` on a register word: tells whether
/// the bit CC0 is one.
#[verifier::external_body]
pub(crate) fn if_cc0(word: u32) -> (set: bool)
    ensures
        set == bits::has_bit(word, CC0),
{
    rtcc_v1::regs::If(word).cc0()
}

/// Calls `silabs_metapac::rtcc_v1::regs::If::set_of` on a register word: the bit OF
/// becomes `val`, the other bits stay.
#[verifier::external_body]
pub(crate) fn if_set_of(word: u32, val: bool) -> (written: u32)
    ensures
        written == bits::with_bit(word, OF, val),
{
    let mut reg = rtcc_v1::regs::If(word);
    reg.set_of(val);
    reg.0
}

/// Calls `silabs_metapac::rtcc_v1::regs::If::set_cc0` on a register word: the bit CC0
/// becomes `val`, the other bits stay.
#[verifier::external_body]
pub(crate) fn if_set_cc0(word: u32, val: bool) -> (written: u32)
    ensures
        written == bits::with_bit(word, CC0, val),
{
    let mut reg = rtcc_v1::regs::If(word);
    reg.set_cc0(val);
    reg.0
}

/// Calls `silabs_metapac::rtcc_v1::regs::If::set_cc1` on a register word: the bit CC1
/// becomes `val`, the other bits stay.
#[verifier::external_body]
pub(crate) fn if_set_cc1(word: u32, val: bool) -> (written: u32)
    ensures
        written == bits::with_bit(word, CC1, val),
{
    let mut reg = rtcc_v1::regs::If(word);
    reg.set_cc1(val);
    reg.0
}

/// Calls `silabs_metapac::rtcc_v1::regs::Ien::set_of` on a register word: the bit OF
/// becomes `val`, the other bits stay.
#[verifier::external_body]
pub(crate) fn ien_set_of(word: u32, val: bool) -> (written: u32)
    ensures
        written == bits::with_bit(word, OF, val),
{
    let mut reg = rtcc_v1::regs::Ien(word);
    reg.set_of(val);
    reg.0
}

/// Calls `silabs_metapac::rtcc_v1::regs::Ien::set_cc0` on a register word: the bit CC0
/// becomes `val`, the other bits stay.
#[verifier::external_body]
pub(crate) fn ien_set_cc0(word: u32, val: bool) -> (written: u32)
    ensures
        written == bits::with_bit(word, CC0, val),
{
    let mut reg = rtcc_v1::regs::Ien(word);
    reg.set_cc0(val);
    reg.0
}

/// Calls `silabs_metapac::rtcc_v1::regs::Ien::set_cc1` on a register word: the bit CC1
/// becomes `val`, the other bits stay.
#[verifier::external_body]
pub(crate) fn ien_set_cc1(word: u32, val: bool) -> (written: u32)
    ensures
        written == bits::with_bit(word, CC1, val),
{
    let mut reg = rtcc_v1::regs::Ien(word);
    reg.set_cc1(val);
    reg.0
}

} // verus!
