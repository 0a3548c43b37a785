//! Fields of the LETIMER registers, and of the clock register that feeds it.
//!
//! Each function stands for one field accessor of `silabs_metapac`, applied to a raw
//! register word.

use silabs_metapac::letimer_v0::vals::Cntpresc;
use silabs_metapac::{cmu_v1, letimer_v0};
use vstd::prelude::*;

use crate::bits;
use crate::letimer::Prescaler;

verus! {

/// Number of the bit LETIMER0 of CLKEN0.
pub const CLKEN0_LETIMER0: u32 = 12;

/// Number of the bit EN of EN.
pub const EN_EN: u32 = 0;

/// Number of the bit START of CMD.
pub const CMD_START: u32 = 0;

/// Number of the bit COMP0, the alarm, of IF and IEN.
pub const COMP0: u32 = 0;

/// Number of the bit COMP1, the half-way mark, of IF and IEN.
pub const COMP1: u32 = 1;

/// Number of the bit UF, the underflow, of IF and IEN.
pub const UF: u32 = 2;

/// `word` with its field CNTPRESC set to `code`.
pub open spec fn with_cntpresc(word: u32, code: u32) -> u32 {
    (word & 0xfff0_ffff) | (code << 16)
}

/// Calls `silabs_metapac::cmu_v1::regs::Clken0::set_letimer0` on a register word: the bit LETIMER0
/// becomes `val`, the other bits stay.
#[verifier::external_body]
pub(crate) fn clken0_set_letimer0(word: u32, val: bool) -> (written: u32)
    ensures
        written == bits::with_bit(word, CLKEN0_LETIMER0, val),
{
    let mut reg = cmu_v1::regs::Clken0(word);
    reg.set_letimer0(val);
    reg.0
}

/// Calls `silabs_metapac::letimer_v0::regs::Ctrl::set_cntpresc` on a register word: the
/// field CNTPRESC becomes the code of the variant of `Cntpresc` that has the name of
/// `prescaler`, the other bits stay.
#[verifier::external_body]
pub(crate) fn ctrl_set_cntpresc(word: u32, prescaler: Prescaler) -> (written: u32)
    ensures
        written == with_cntpresc(word, prescaler.code()),
{
    let mut reg = letimer_v0::regs::Ctrl(word);
    reg.set_cntpresc(match prescaler {
        Prescaler::Div1 => Cntpresc::Div1,
        Prescaler::Div2 => Cntpresc::Div2,
        Prescaler::Div4 => Cntpresc::Div4,
        Prescaler::Div8 => Cntpresc::Div8,
        Prescaler::Div16 => Cntpresc::Div16,
        Prescaler::Div32 => Cntpresc::Div32,
        Prescaler::Div64 => Cntpresc::Div64,
        Prescaler::Div128 => Cntpresc::Div128,
    });
    reg.0
}

/// Calls `silabs_metapac::letimer_v0::regs::En::set_en` on a register word: the bit EN
/// becomes `val`, the other bits stay.
#[verifier::external_body]
pub(crate) fn en_set_en(word: u32, val: bool) -> (written: u32)
    ensures
        written == bits::with_bit(word, EN_EN, val),
{
    let mut reg = letimer_v0::regs::En(word);
    reg.set_en(val);
    reg.0
}

/// Calls `silabs_metapac::letimer_v0::regs::Cmd::set_start` on a register word: the bit START
/// becomes `val`, the other bits stay.
#[verifier::external_body]
pub(crate) fn cmd_set_start(word: u32, val: bool) -> (written: u32)
    ensures
        written == bits::with_bit(word, CMD_START, val),
{
    let mut reg = letimer_v0::regs::Cmd(word);
    reg.set_start(val);
    reg.0
}

/// Calls `silabs_metapac::letimer_v0::regs::Comp0::set_comp0` on a register word: the low
/// 24 bits become those of `val`, the other bits stay.
#[verifier::external_body]
pub(crate) fn comp0_set_comp0(word: u32, val: u32) -> (written: u32)
    ensures
        written == bits::with_low24(word, val),
{
    let mut reg = letimer_v0::regs::Comp0(word);
    reg.set_comp0(val);
    reg.0
}

/// Calls `silabs_metapac::letimer_v0::regs::Comp1::set_comp1` on a register word: the low
/// 24 bits become those of `val`, the other bits stay.
#[verifier::external_body]
pub(crate) fn comp1_set_comp1(word: u32, val: u32) -> (written: u32)
    ensures
        written == bits::with_low24(word, val),
{
    let mut reg = letimer_v0::regs::Comp1(word);
    reg.set_comp1(val);
    reg.0
}

/// Calls `silabs_metapac::letimer_v0::regs::Cnt::cnt` on a register word: the low 24 bits.
#[verifier::external_body]
pub(crate) fn cnt_cnt(word: u32) -> (cnt: u32)
    ensures
        cnt == bits::low24(word),
{
    letimer_v0::regs::Cnt(word).cnt()
}

/// Calls `silabs_metapac::letimer_v0::regs::If::uf` on a register word: tells whether
/// the bit UF is one.
#[verifier::external_body]
pub(crate) fn if_uf(word: u32) -> (set: bool)
    ensures
        set == bits::has_bit(word, UF),
{
    letimer_v0::regs::If(word).uf()
}

/// Calls `silabs_metapac::letimer_v0::regs::If::comp1` on a register word: tells whether
/// the bit COMP1 is one.
#[verifier::external_body]
pub(crate) fn if_comp1(word: u32) -> (set: bool)
    ensures
        set == bits::has_bit(word, COMP1),
{
    letimer_v0::regs::If(word).comp1()
}

/// Calls `silabs_metapac::letimer_v0::regs::If::set_uf` on a register word: the bit UF
/// becomes `val`, the other bits stay.
#[verifier::external_body]
pub(crate) fn if_set_uf(word: u32, val: bool) -> (written: u32)
    ensures
        written == bits::with_bit(word, UF, val),
{
    let mut reg = letimer_v0::regs::If(word);
    reg.set_uf(val);
    reg.0
}

/// Calls `silabs_metapac::letimer_v0::regs::If::set_comp0` on a register word: the bit COMP0
/// becomes `val`, the other bits stay.
#[verifier::external_body]
pub(crate) fn if_set_comp0(word: u32, val: bool) -> (written: u32)
    ensures
        written == bits::with_bit(word, COMP0, val),
{
    let mut reg = letimer_v0::regs::If(word);
    reg.set_comp0(val);
    reg.0
}

/// Calls `silabs_metapac::letimer_v0::regs::If::set_comp1` on a register word: the bit COMP1
/// becomes `val`, the other bits stay.
#[verifier::external_body]
pub(crate) fn if_set_comp1(word: u32, val: bool) -> (written: u32)
    ensures
        written == bits::with_bit(word, COMP1, val),
{
    let mut reg = letimer_v0::regs::If(word);
    reg.set_comp1(val);
    reg.0
}

/// Calls `silabs_metapac::letimer_v0::regs::Ien::set_uf` on a register word: the bit UF
/// becomes `val`, the other bits stay.
#[verifier::external_body]
pub(crate) fn ien_set_uf(word: u32, val: bool) -> (written: u32)
    ensures
        written == bits::with_bit(word, UF, val),
{
    let mut reg = letimer_v0::regs::Ien(word);
    reg.set_uf(val);
    reg.0
}

/// Calls `silabs_metapac::letimer_v0::regs::Ien::set_comp0` on a register word: the bit COMP0
/// becomes `val`, the other bits stay.
#[verifier::external_body]
pub(crate) fn ien_set_comp0(word: u32, val: bool) -> (written: u32)
    ensures
        written == bits::with_bit(word, COMP0, val),
{
    let mut reg = letimer_v0::regs::Ien(word);
    reg.set_comp0(val);
    reg.0
}

/// Calls `silabs_metapac::letimer_v0::regs::Ien::set_comp1` on a register word: the bit COMP1
/// becomes `val`, the other bits stay.
#[verifier::external_body]
pub(crate) fn ien_set_comp1(word: u32, val: bool) -> (written: u32)
    ensures
        written == bits::with_bit(word, COMP1, val),
{
    let mut reg = letimer_v0::regs::Ien(word);
    reg.set_comp1(val);
    reg.0
}

} // verus!
