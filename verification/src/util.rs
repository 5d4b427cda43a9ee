use core::cmp::Ordering;
use vstd::prelude::*;
use vstd::std_specs::cmp::PartialOrdSpec;

verus! {

/// The value of `i` as a `u16` when `i` is not negative: `i` itself up to
/// `u16::MAX`, and above that its sixteen low bits.
pub open spec fn spec_relu(i: i32) -> u16 {
    if i < 0 {
        0
    } else {
        (i % 0x1_0000) as u16
    }
}

/// Clamps a signed amount at zero.
pub fn relu(i: i32) -> (r: u16)
    ensures
        r == spec_relu(i),
        0 <= i <= u16::MAX ==> r == i,
{
    if i < 0 {
        0
    } else {
        (i % 0x1_0000) as u16
    }
}

/// `stat` lowered by `amount`, but not below zero.
pub open spec fn spec_lowered(stat: u16, amount: u16) -> u16 {
    if stat > amount {
        (stat - amount) as u16
    } else {
        0
    }
}

pub fn lowered(stat: u16, amount: u16) -> (less: u16)
    ensures
        less == spec_lowered(stat, amount),
{
    if stat > amount {
        stat - amount
    } else {
        0
    }
}

/// `stat` raised by `amount`, but not above what a `u16` holds.
pub open spec fn spec_raised(stat: u16, amount: nat) -> u16 {
    if stat + amount <= u16::MAX {
        (stat + amount) as u16
    } else {
        u16::MAX
    }
}

pub fn raised(stat: u16, amount: usize) -> (more: u16)
    ensures
        more == spec_raised(stat, amount as nat),
{
    if amount <= (u16::MAX - stat) as usize {
        stat + amount as u16
    } else {
        u16::MAX
    }
}

/// The smaller of two values, the second when neither is smaller: on the
/// integers, the minimum.
pub fn min2<T: PartialOrd>(x: T, y: T) -> (r: T)
    ensures
        T::obeys_partial_cmp_spec() ==> r == (if x.partial_cmp_spec(&y) == Some(Ordering::Less) {
            x
        } else {
            y
        }),
        r == x || r == y,
{
    if x < y {
        x
    } else {
        y
    }
}

} // verus!
