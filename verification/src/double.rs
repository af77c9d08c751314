//! Double-precision numbers by their bits.
use crate::macro_engine::F64Bits;
use vstd::prelude::*;

verus! {

/// Two doubles compare as equal: neither is a NaN, and they are the same or both zero.
pub open spec fn equal_doubles(a: F64Bits, b: F64Bits) -> bool {
    !is_nan(a) && !is_nan(b) && (a == b || (is_zero(a) && is_zero(b)))
}

pub open spec fn is_nan(a: F64Bits) -> bool {
    a.0 % 0x8000_0000_0000_0000 > 0x7FF0_0000_0000_0000
}

pub open spec fn is_zero(a: F64Bits) -> bool {
    a.0 % 0x8000_0000_0000_0000 == 0
}

/// A double as it is printed: every NaN is printed as one.
pub open spec fn printed_double(a: F64Bits) -> F64Bits {
    if is_nan(a) {
        F64Bits(0x7FF8_0000_0000_0000)
    } else {
        a
    }
}

pub fn print_double(a: F64Bits) -> (printed: F64Bits)
    ensures
        printed == printed_double(a),
{
    if a.0 % 0x8000_0000_0000_0000 > 0x7FF0_0000_0000_0000 {
        F64Bits(0x7FF8_0000_0000_0000)
    } else {
        a
    }
}

pub fn doubles_equal(a: F64Bits, b: F64Bits) -> (equal: bool)
    ensures
        equal == equal_doubles(a, b),
{
    let x: u64 = a.0 % 0x8000_0000_0000_0000;
    let y: u64 = b.0 % 0x8000_0000_0000_0000;
    let numbers = x <= 0x7FF0_0000_0000_0000 && y <= 0x7FF0_0000_0000_0000;
    numbers && (a.0 == b.0 || (x == 0 && y == 0))
}

impl PartialEq for F64Bits {
    fn eq(&self, other: &Self) -> (equal: bool) {
        doubles_equal(*self, *other)
    }
}

impl vstd::std_specs::cmp::PartialEqSpecImpl for F64Bits {
    open spec fn obeys_eq_spec() -> bool {
        true
    }

    open spec fn eq_spec(&self, other: &Self) -> bool {
        equal_doubles(*self, *other)
    }
}

} // verus!
