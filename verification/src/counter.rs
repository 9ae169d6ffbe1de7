//! The durable counter that numbers the records.
//!
//! A counter is a cell in a region of its own. The region begins with the
//! cell's header, the letters SCL, the version of the layout and the length
//! of the value, and the value follows: eight bytes, most significant
//! first.

use vstd::prelude::*;
use vstd::bytes::spec_u64_from_le_bytes;
use ic_stable_structures::cell::{InitError, ValueError};
use ic_stable_structures::memory_manager::VirtualMemory;
use ic_stable_structures::{Cell, DefaultMemoryImpl};
use crate::memory::{region_bytes, region_id, same_bytes, Region};
use crate::types::Error;

verus! {

/// Why `Cell::init` did not open a cell.
#[verifier::external_type_specification]
pub struct ExInitError(InitError);

/// Why `Cell::set` did not store a value.
#[verifier::external_type_specification]
pub struct ExValueError(ValueError);

/// A counter kept in a region of its own: a `Cell` that holds a `u64`. Its
/// value is written to the region whenever it changes.
#[verifier::external_body]
pub struct Counter {
    inner: Cell<u64, VirtualMemory<DefaultMemoryImpl>>,
}

/// The number that a counter holds.
pub uninterp spec fn counter_value(c: Counter) -> u64;

/// The number of the region that a counter is kept in.
pub uninterp spec fn counter_region(c: Counter) -> u8;

/// The first bytes of a region that holds a counter: the letters SCL, the
/// version 1, and the length 8 of the value, least significant byte first.
pub open spec fn cell_header() -> Seq<u8> {
    seq![0x53u8, 0x43u8, 0x4cu8, 1u8, 8u8, 0u8, 0u8, 0u8]
}

/// Whether a region holds a counter.
pub open spec fn holds_counter(bytes: Seq<u8>) -> bool {
    bytes.len() >= 16 && bytes.subrange(0, 8) == cell_header()
}

/// The number that a region with a counter holds: the eight bytes behind
/// the header, most significant first.
pub open spec fn held_counter(bytes: Seq<u8>) -> u64 {
    spec_u64_from_le_bytes(bytes.subrange(8, 16).reverse())
}

/// Whether a counter can be opened on a region: it is empty or holds a
/// counter.
pub open spec fn takes_counter(bytes: Seq<u8>) -> bool {
    bytes.len() == 0 || holds_counter(bytes)
}

/// Whether a counter holds the number that a region holds.
pub open spec fn found_in(region: Region, c: Counter) -> bool {
    counter_value(c) == held_counter(region_bytes(region))
}

/// `Cell::init`. On a region that holds a counter it gives that counter.
/// On an empty region it writes a new counter at `start`, or fails with
/// `ValueTooLarge` where the region cannot get its first page.
/// The cell keeps the memory that it is given, so the counter is in that
/// region. On any other region the call writes over what is there, or
/// panics on a header of another version or length: `requires` leaves
/// those out. The call panics where the backing memory itself cannot
/// grow.
#[verifier::external_body]
fn cell_init(region: Region, start: u64) -> (r: Result<Counter, InitError>)
    requires
        takes_counter(region_bytes(region)),
    ensures
        r matches Ok(c) ==> holds_counter(region_bytes(region)) ==> found_in(region, c),
        r matches Ok(c) ==> region_bytes(region).len() == 0 ==> counter_value(c) == start,
        r matches Err(e) ==> region_bytes(region).len() == 0 && e is ValueTooLarge,
        r matches Ok(c) ==> counter_region(c) == region_id(region),
{
    match Cell::init(region.inner, start) {
        Ok(inner) => Ok(Counter { inner }),
        Err(e) => Err(e),
    }
}

/// `Cell::into_memory`: the region that the counter was kept in, which
/// holds the counter as it was last written.
#[verifier::external_body]
fn cell_into_memory(c: Counter) -> (r: Region)
    ensures
        region_id(r) == counter_region(c),
        holds_counter(region_bytes(r)),
        held_counter(region_bytes(r)) == counter_value(c),
{
    Region { inner: c.inner.into_memory() }
}

/// `Cell::get`: the number that the counter holds.
#[verifier::external_body]
fn cell_get(c: &Counter) -> (v: u64)
    ensures
        v == counter_value(*c),
{
    *c.inner.get()
}

/// `Cell::set`: writes `value` and returns the number held before. The call
/// fails only where the region must grow to take the value; the region of
/// a counter holds a page, of which a `u64` and the header take sixteen
/// bytes, so it does not fail here. The counter stays in its region.
#[verifier::external_body]
fn cell_set(c: &mut Counter, value: u64) -> (r: Result<u64, ValueError>)
    ensures
        r is Ok,
        r matches Ok(before) ==> before == counter_value(*old(c)),
        counter_value(*final(c)) == value,
        counter_region(*final(c)) == counter_region(*old(c)),
{
    c.inner.set(value)
}

/// The number that a new counter holds: no identifier was handed out yet,
/// and the first one is 1.
pub const FIRST: u64 = 0;

/// The identifier that follows `current`, if there is one.
pub open spec fn next_id(current: u64) -> Option<u64> {
    if current < u64::MAX {
        Some((current + 1) as u64)
    } else {
        None
    }
}

/// The identifier that follows `current`, or `CounterExhausted` at the end
/// of the identifiers.
pub fn following(current: u64) -> (r: Result<u64, Error>)
    ensures
        r == match next_id(current) {
            Some(id) => Ok::<u64, Error>(id),
            None => Err::<u64, Error>(Error::CounterExhausted),
        },
{
    if current == u64::MAX {
        Err(Error::CounterExhausted)
    } else {
        Ok(current + 1)
    }
}

/// The error that stands for a cell that could not be opened: a layout of
/// another version is bytes that cannot be read, and a value that does not
/// fit is a memory that is full.
pub open spec fn open_failure(e: InitError) -> Error {
    match e {
        InitError::IncompatibleVersion { .. } => Error::DecodeCorruption,
        InitError::ValueTooLarge { .. } => Error::StoreFull,
    }
}

/// What becomes of opening a cell.
pub fn opened(found: Result<Counter, InitError>) -> (r: Result<Counter, Error>)
    ensures
        match found {
            Ok(c) => r == Ok::<Counter, Error>(c),
            Err(e) => r == Err::<Counter, Error>(open_failure(e)),
        },
{
    match found {
        Ok(c) => Ok(c),
        Err(InitError::IncompatibleVersion { .. }) => Err(Error::DecodeCorruption),
        Err(InitError::ValueTooLarge { .. }) => Err(Error::StoreFull),
    }
}

/// What opening a counter on a region gives, by what the region holds.
pub open spec fn opens_counter(region: Region, r: Result<Counter, Error>) -> bool {
    let held = region_bytes(region);
    if held.len() == 0 {
        match r {
            Ok(c) => c.value() == FIRST && c.region() == region_id(region),
            Err(e) => e == Error::StoreFull,
        }
    } else if holds_counter(held) {
        r matches Ok(c) && c.value() == held_counter(held) && c.region() == region_id(region)
    } else {
        r matches Err(e) && e == Error::DecodeCorruption
    }
}

impl Counter {
    /// The number that the counter holds: the last identifier handed out.
    pub open spec fn value(&self) -> u64 {
        counter_value(*self)
    }

    /// The number of the region that the counter is kept in.
    pub open spec fn region(&self) -> u8 {
        counter_region(*self)
    }

    /// Whether a counter can be opened on the region: it is empty or holds
    /// a counter.
    pub fn fits(region: &Region) -> (r: bool)
        ensures
            r == takes_counter(region_bytes(*region)),
    {
        match region.head(8) {
            None => true,
            Some(head) => {
                let expected: Vec<u8> = vec![0x53u8, 0x43u8, 0x4cu8, 1u8, 8u8, 0u8, 0u8, 0u8];
                same_bytes(head.as_slice(), expected.as_slice())
            },
        }
    }

    /// Opens the counter that `region` holds, with the number it holds. An
    /// empty region gets a new counter at `FIRST`; that fails with `StoreFull`
    /// only where the memory cannot give the region its first page. A
    /// region that holds anything else is refused with `DecodeCorruption`,
    /// and nothing is written to it.
    pub fn open(region: Region) -> (r: Result<Counter, Error>)
        ensures
            opens_counter(region, r),
    {
        if Counter::fits(&region) {
            opened(cell_init(region, FIRST))
        } else {
            Err(Error::DecodeCorruption)
        }
    }

    /// Gives the counter up for its region, which holds the counter as it
    /// was last written.
    pub fn close(self) -> (r: Region)
        ensures
            region_id(r) == self.region(),
            holds_counter(region_bytes(r)),
            held_counter(region_bytes(r)) == self.value(),
    {
        cell_into_memory(self)
    }

    /// Reads the counter again from the bytes that it wrote, as a restart
    /// does: the value is the same, and the counter is in the region it was
    /// in.
    pub fn reload(self) -> (r: Result<Counter, Error>)
        ensures
            r matches Ok(again) && again.value() == self.value() && again.region() == self.region(),
    {
        Counter::open(self.close())
    }

    /// The last identifier handed out.
    pub fn current(&self) -> (v: u64)
        ensures
            v == self.value(),
    {
        cell_get(self)
    }

    /// Hands out the next identifier: one more than the last. The counter
    /// is written before the identifier is returned, so that an identifier
    /// may be skipped where the process ends early, and is never handed out
    /// twice. At `u64::MAX` there is no next one: `CounterExhausted`, and
    /// the counter stays as it was. The counter stays in its region.
    pub fn allocate(&mut self) -> (r: Result<u64, Error>)
        ensures
            final(self).region() == old(self).region(),
            match r {
                Ok(id) => next_id(old(self).value()) == Some(id) && final(self).value() == id,
                Err(e) => {
                    &&& e == Error::CounterExhausted
                    &&& next_id(old(self).value()) is None
                    &&& final(self).value() == old(self).value()
                },
            },
    {
        let id = match following(cell_get(self)) {
            Ok(id) => id,
            Err(e) => { return Err(e); },
        };
        let _ = cell_set(self, id);
        Ok(id)
    }
}

} // verus!
