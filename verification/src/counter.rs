//! The shared count of half periods, and the reading of the time from it.
//!
//! The count lives in a cell that an interrupt handler and the tasks share. A function that
//! works on it is handed the cell once, as a value of a type of which it knows no more than
//! that the cell can be borrowed from it. Verified code can neither copy such a value nor
//! borrow from it, and each access uses it up: so a function makes at most one access to
//! the cell that it is handed. What is said of that access is that it is one the cell
//! allows: that a load can give this value, that a store of this value can return, that an
//! add of this value can give that one back.

use std::borrow::Borrow;

use portable_atomic::{AtomicU32, AtomicU64};
use rtic_time::half_period_counter::calculate_now;
use vstd::prelude::*;

use crate::half_period;

verus! {

/// Half of the range of a 32-bit counter.
pub const HALF_U32: u32 = 0x8000_0000;

/// `portable_atomic::AtomicU32`, opaque.
#[verifier::external_type_specification]
#[verifier::external_body]
pub struct ExAtomicU32(AtomicU32);

/// `portable_atomic::AtomicU64`, opaque.
#[verifier::external_type_specification]
#[verifier::external_body]
pub struct ExAtomicU64(AtomicU64);

/// Calls `portable_atomic::AtomicU32::load`, relaxed.
///
/// The interrupt handler writes to the cell at any moment, so nothing is claimed of
/// the value that comes back.
#[verifier::external_body]
fn atomic_load_u32<C: Borrow<AtomicU32>>(cell: C) -> u32 {
    cell.borrow().load(portable_atomic::Ordering::Relaxed)
}

/// Calls `portable_atomic::AtomicU32::store`, sequentially consistent.
///
/// The cell is shared, so nothing is claimed of what it holds afterwards.
#[verifier::external_body]
fn atomic_store_u32<C: Borrow<AtomicU32>>(cell: C, val: u32) {
    cell.borrow().store(val, portable_atomic::Ordering::SeqCst)
}

/// Calls `portable_atomic::AtomicU32::fetch_add`, relaxed, which adds `val` with
/// wrap-around and gives back the value from before.
///
/// The cell is shared, so nothing is claimed of either value.
#[verifier::external_body]
fn atomic_fetch_add_u32<C: Borrow<AtomicU32>>(cell: C, val: u32) -> u32 {
    cell.borrow().fetch_add(val, portable_atomic::Ordering::Relaxed)
}

/// `val` is a value that a load of `cell` can give.
pub closed spec fn loaded_u32<C: Borrow<AtomicU32>>(cell: C, val: u32) -> bool {
    call_ensures(atomic_load_u32::<C>, (cell,), val)
}

/// A store of `val` into `cell` can return.
pub closed spec fn stored_u32<C: Borrow<AtomicU32>>(cell: C, val: u32) -> bool {
    call_ensures(atomic_store_u32::<C>, (cell, val), ())
}

/// `prev` is a value that an add of `val` to `cell` can give back, the one from just before.
pub closed spec fn added_u32<C: Borrow<AtomicU32>>(cell: C, val: u32, prev: u32) -> bool {
    call_ensures(atomic_fetch_add_u32::<C>, (cell, val), prev)
}

/// Loads the shared count.
pub(crate) fn load_u32<C: Borrow<AtomicU32>>(cell: C) -> (val: u32)
    ensures
        loaded_u32(cell, val),
{
    let load = atomic_load_u32::<C>;
    let val: u32 = load(cell);
    assert(call_ensures(atomic_load_u32::<C>, (cell,), val));
    val
}

/// Stores `val` as the shared count.
pub(crate) fn store_u32<C: Borrow<AtomicU32>>(cell: C, val: u32)
    ensures
        stored_u32(cell, val),
{
    let store = atomic_store_u32::<C>;
    store(cell, val);
    assert(call_ensures(atomic_store_u32::<C>, (cell, val), ()));
}

/// Adds `val` to the shared count, and gives the count from before.
pub(crate) fn fetch_add_u32<C: Borrow<AtomicU32>>(cell: C, val: u32) -> (prev: u32)
    ensures
        added_u32(cell, val, prev),
{
    let fetch_add = atomic_fetch_add_u32::<C>;
    let prev: u32 = fetch_add(cell, val);
    assert(call_ensures(atomic_fetch_add_u32::<C>, (cell, val), prev));
    prev
}

/// Calls `portable_atomic::AtomicU64::load`, relaxed.
///
/// The interrupt handler writes to the cell at any moment, so nothing is claimed of
/// the value that comes back.
#[verifier::external_body]
fn atomic_load_u64<C: Borrow<AtomicU64>>(cell: C) -> u64 {
    cell.borrow().load(portable_atomic::Ordering::Relaxed)
}

/// Calls `portable_atomic::AtomicU64::store`, sequentially consistent.
///
/// The cell is shared, so nothing is claimed of what it holds afterwards.
#[verifier::external_body]
fn atomic_store_u64<C: Borrow<AtomicU64>>(cell: C, val: u64) {
    cell.borrow().store(val, portable_atomic::Ordering::SeqCst)
}

/// Calls `portable_atomic::AtomicU64::fetch_add`, relaxed, which adds `val` with
/// wrap-around and gives back the value from before.
///
/// The cell is shared, so nothing is claimed of either value.
#[verifier::external_body]
fn atomic_fetch_add_u64<C: Borrow<AtomicU64>>(cell: C, val: u64) -> u64 {
    cell.borrow().fetch_add(val, portable_atomic::Ordering::Relaxed)
}

/// `val` is a value that a load of `cell` can give.
pub closed spec fn loaded_u64<C: Borrow<AtomicU64>>(cell: C, val: u64) -> bool {
    call_ensures(atomic_load_u64::<C>, (cell,), val)
}

/// A store of `val` into `cell` can return.
pub closed spec fn stored_u64<C: Borrow<AtomicU64>>(cell: C, val: u64) -> bool {
    call_ensures(atomic_store_u64::<C>, (cell, val), ())
}

/// `prev` is a value that an add of `val` to `cell` can give back, the one from just before.
pub closed spec fn added_u64<C: Borrow<AtomicU64>>(cell: C, val: u64, prev: u64) -> bool {
    call_ensures(atomic_fetch_add_u64::<C>, (cell, val), prev)
}

/// Loads the shared count.
pub(crate) fn load_u64<C: Borrow<AtomicU64>>(cell: C) -> (val: u64)
    ensures
        loaded_u64(cell, val),
{
    let load = atomic_load_u64::<C>;
    let val: u64 = load(cell);
    assert(call_ensures(atomic_load_u64::<C>, (cell,), val));
    val
}

/// Stores `val` as the shared count.
pub(crate) fn store_u64<C: Borrow<AtomicU64>>(cell: C, val: u64)
    ensures
        stored_u64(cell, val),
{
    let store = atomic_store_u64::<C>;
    store(cell, val);
    assert(call_ensures(atomic_store_u64::<C>, (cell, val), ()));
}

/// Adds `val` to the shared count, and gives the count from before.
pub(crate) fn fetch_add_u64<C: Borrow<AtomicU64>>(cell: C, val: u64) -> (prev: u64)
    ensures
        added_u64(cell, val, prev),
{
    let fetch_add = atomic_fetch_add_u64::<C>;
    let prev: u64 = fetch_add(cell, val);
    assert(call_ensures(atomic_fetch_add_u64::<C>, (cell, val), prev));
    prev
}

/// `now` is the time of some reading: of a count that `half_periods` can give and a
/// value of a 32-bit counter that `timer_value` can give.
pub open spec fn is_reading<P: FnOnce() -> u64, T: FnOnce() -> u32>(
    half_periods: P,
    timer_value: T,
    now: u128,
) -> bool {
    exists|count: u64, value: u32|
        #![trigger call_ensures(half_periods, (), count), call_ensures(timer_value, (), value)]
        call_ensures(half_periods, (), count) && call_ensures(timer_value, (), value) && now
            == half_period::time(HALF_U32 as nat, count as nat, value as nat)
}

/// Calls `rtic_time::half_period_counter::calculate_now` for a 32-bit counter.
///
/// It reads the count before the counter, inside a critical section, and combines the
/// two by the parity of the count. The contract claims that the result is the time of
/// the two values read, and that `timer_value` is called only once `half_periods` has
/// given a count. The sum is taken in 128 bits, where no count makes it overflow.
#[verifier::external_body]
pub(crate) fn calculate_now_u32<P: FnOnce() -> u64, T: FnOnce() -> u32>(
    half_periods: P,
    timer_value: T,
) -> (now: u128)
    requires
        call_requires(half_periods, ()),
        forall|count: u64| #[trigger]
            call_ensures(half_periods, (), count) ==> call_requires(timer_value, ()),
    ensures
        is_reading(half_periods, timer_value, now),
{
    calculate_now(half_periods, timer_value)
}

/// A reading is of a count and a value that were read: the counter shows the value at the
/// time, and the time lies in the half period of the count or in the one after it.
pub proof fn lemma_reading_fits_what_was_read<P: FnOnce() -> u64, T: FnOnce() -> u32>(
    half_periods: P,
    timer_value: T,
    now: u128,
)
    requires
        is_reading(half_periods, timer_value, now),
    ensures
        exists|count: u64, value: u32|
            #![trigger call_ensures(half_periods, (), count), call_ensures(timer_value, (), value)]
            call_ensures(half_periods, (), count) && call_ensures(timer_value, (), value) && now
                % 0x1_0000_0000 == value && (now / 0x8000_0000 == count || now / 0x8000_0000
                == count + 1),
{
    let (count, value) = choose|count: u64, value: u32|
        #![trigger call_ensures(half_periods, (), count), call_ensures(timer_value, (), value)]
        call_ensures(half_periods, (), count) && call_ensures(timer_value, (), value) && now
            == half_period::time(HALF_U32 as nat, count as nat, value as nat);
    half_period::lemma_time_fits_the_reading(0x8000_0000, count as nat, value as nat);
    assert(call_ensures(half_periods, (), count) && call_ensures(timer_value, (), value));
}

/// Each of the three accesses is the access of that name to that cell.
proof fn lemma_accesses_of_u32<C: Borrow<AtomicU32>>(cell: C, val: u32, prev: u32)
    ensures
        loaded_u32(cell, val) <==> call_ensures(atomic_load_u32::<C>, (cell,), val),
        stored_u32(cell, val) <==> call_ensures(atomic_store_u32::<C>, (cell, val), ()),
        added_u32(cell, val, prev) <==> call_ensures(
            atomic_fetch_add_u32::<C>,
            (cell, val),
            prev,
        ),
{
}

/// Each of the three accesses is the access of that name to that cell.
proof fn lemma_accesses_of_u64<C: Borrow<AtomicU64>>(cell: C, val: u64, prev: u64)
    ensures
        loaded_u64(cell, val) <==> call_ensures(atomic_load_u64::<C>, (cell,), val),
        stored_u64(cell, val) <==> call_ensures(atomic_store_u64::<C>, (cell, val), ()),
        added_u64(cell, val, prev) <==> call_ensures(
            atomic_fetch_add_u64::<C>,
            (cell, val),
            prev,
        ),
{
}

} // verus!
