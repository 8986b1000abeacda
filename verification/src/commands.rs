//! The raise/lower/set brightness commands over a selected device.
//!
//! Each command turns a percentage request into one bounded raw value and
//! enforces a floor, given in percent, regardless of the direction of
//! movement. The computed value is issued on the bus by the caller and the
//! outcome is recorded through `apply_write`.

use crate::convert::{
    lemma_raw_from_percent_in_range, lemma_scale_bounds, lemma_scale_monotonic, max_int, min_int,
    scale_u64, spec_raw_from_percent, spec_scale,
};
use crate::device::{DeviceState, ProtocolWriteError};
use vstd::prelude::*;

verus! {

/// Raising moves up by a step but never beyond `max`, then the floor and
/// the device bounds are enforced.
pub open spec fn spec_raise_result(current: int, max: int, by: int, floor: int) -> int {
    min_int(
        max_int(
            min_int(current + spec_raw_from_percent(by, max), max),
            spec_raw_from_percent(floor, max),
        ),
        max,
    )
}

/// Lowering moves down by a step but never below zero, then the floor and
/// the device bounds are enforced.
pub open spec fn spec_lower_result(current: int, max: int, by: int, floor: int) -> int {
    min_int(
        max_int(
            max_int(current - spec_raw_from_percent(by, max), 0),
            spec_raw_from_percent(floor, max),
        ),
        max,
    )
}

/// Setting converts the requested percentage, raised to the floor first,
/// and bounds the result to the device range.
pub open spec fn spec_set_result(max: int, val: int, floor: int) -> int {
    min_int(spec_raw_from_percent(max_int(val, floor), max), max)
}

/// The DDC/CI brightness backend over one selected device.
#[derive(Debug)]
pub struct Ddcci {
    device: DeviceState,
}

impl Ddcci {
    pub closed spec fn spec_device(&self) -> DeviceState {
        self.device
    }

    pub open spec fn spec_current(&self) -> u32 {
        self.spec_device().spec_current()
    }

    pub open spec fn spec_max(&self) -> u32 {
        self.spec_device().spec_max()
    }

    pub open spec fn inv(&self) -> bool {
        self.spec_device().inv()
    }

    /// A backend over a device that discovery selected.
    pub fn new(device: DeviceState) -> (r: Self)
        requires
            device.inv(),
        ensures
            r.inv(),
            r.spec_current() == device.spec_current(),
            r.spec_max() == device.spec_max(),
    {
        Ddcci { device }
    }

    pub fn get_current(&self) -> (r: u32)
        ensures
            r == self.spec_current(),
    {
        self.device.get_current()
    }

    pub fn get_max(&self) -> (r: u32)
        ensures
            r == self.spec_max(),
    {
        self.device.get_max()
    }

    /// The raw value a `raise(by, floor)` command writes: never above the
    /// maximum, and never below the floor when the floor is a percentage.
    pub fn raise_value(&self, by: u32, floor: u32) -> (r: u32)
        requires
            self.inv(),
        ensures
            r == spec_raise_result(
                self.spec_current() as int,
                self.spec_max() as int,
                by as int,
                floor as int,
            ),
            r <= self.spec_max(),
            floor <= 100 ==> spec_raw_from_percent(floor as int, self.spec_max() as int) <= r,
    {
        let max64 = self.device.get_max() as u64;
        let cur64 = self.device.get_current() as u64;
        proof {
            lemma_command_products_fit(by as int, floor as int, max64 as int);
        }
        let step = scale_u64((by as u64) * max64, 100);
        let candidate = if cur64 + step < max64 {
            cur64 + step
        } else {
            max64
        };
        let floor_raw = scale_u64((floor as u64) * max64, 100);
        let chosen = if candidate > floor_raw {
            candidate
        } else {
            floor_raw
        };
        let bounded = if chosen > max64 {
            max64
        } else {
            chosen
        };
        proof {
            if floor <= 100 {
                lemma_raw_from_percent_in_range(floor as int, max64 as int);
            }
        }
        bounded as u32
    }

    /// The raw value a `lower(by, floor)` command writes: never below zero
    /// nor, when the floor is a percentage, below the floor.
    pub fn lower_value(&self, by: u32, floor: u32) -> (r: u32)
        requires
            self.inv(),
        ensures
            r == spec_lower_result(
                self.spec_current() as int,
                self.spec_max() as int,
                by as int,
                floor as int,
            ),
            r <= self.spec_max(),
            floor <= 100 ==> spec_raw_from_percent(floor as int, self.spec_max() as int) <= r,
    {
        let max64 = self.device.get_max() as u64;
        let cur64 = self.device.get_current() as u64;
        proof {
            lemma_command_products_fit(by as int, floor as int, max64 as int);
        }
        let step = scale_u64((by as u64) * max64, 100);
        let candidate = if cur64 >= step {
            cur64 - step
        } else {
            0
        };
        let floor_raw = scale_u64((floor as u64) * max64, 100);
        let chosen = if candidate > floor_raw {
            candidate
        } else {
            floor_raw
        };
        let bounded = if chosen > max64 {
            max64
        } else {
            chosen
        };
        proof {
            if floor <= 100 {
                lemma_raw_from_percent_in_range(floor as int, max64 as int);
            }
        }
        bounded as u32
    }

    /// The raw value a `set(val, floor)` command writes: the requested
    /// percentage raised to the floor, bounded to the device range.
    pub fn set_value(&self, val: u32, floor: u32) -> (r: u32)
        requires
            self.inv(),
        ensures
            r == spec_set_result(self.spec_max() as int, val as int, floor as int),
            r <= self.spec_max(),
            floor <= 100 ==> spec_raw_from_percent(floor as int, self.spec_max() as int) <= r,
    {
        let max64 = self.device.get_max() as u64;
        let effective = if val > floor {
            val
        } else {
            floor
        };
        proof {
            lemma_command_products_fit(effective as int, floor as int, max64 as int);
        }
        let raw = scale_u64((effective as u64) * max64, 100);
        let bounded = if raw > max64 {
            max64
        } else {
            raw
        };
        proof {
            if floor <= 100 {
                lemma_raw_from_percent_in_range(floor as int, max64 as int);
                assert((floor as int) * (max64 as int) <= (effective as int) * (max64 as int))
                    by (nonlinear_arith)
                    requires
                        floor <= effective,
                        0 <= max64,
                {}
                lemma_scale_monotonic(
                    (floor as int) * (max64 as int),
                    (effective as int) * (max64 as int),
                    100,
                );
            }
        }
        bounded as u32
    }

    /// Record the outcome of the bounded write a command issued; on failure
    /// the device state is unchanged and the error is returned.
    pub fn apply_write(&mut self, val: u32, accepted: bool) -> (r: Result<(), ProtocolWriteError>)
        requires
            old(self).inv(),
            val <= old(self).spec_max(),
        ensures
            final(self).inv(),
            final(self).spec_max() == old(self).spec_max(),
            accepted ==> r is Ok && final(self).spec_current() == val,
            !accepted ==> r is Err && final(self).spec_current() == old(self).spec_current(),
    {
        self.device.apply_write(val, accepted)
    }
}

/// The intermediate products a command computes stay within `u64`.
proof fn lemma_command_products_fit(by: int, floor: int, max: int)
    requires
        0 <= by <= u32::MAX,
        0 <= floor <= u32::MAX,
        0 <= max <= u32::MAX,
    ensures
        by * max + 50 <= u64::MAX,
        floor * max + 50 <= u64::MAX,
        0 <= spec_scale(by * max, 100) <= by * max,
        0 <= spec_scale(floor * max, 100) <= floor * max,
{
    assert(by * max <= 0xffff_ffff * 0xffff_ffff && floor * max <= 0xffff_ffff * 0xffff_ffff
        && 0 <= by * max && 0 <= floor * max) by (nonlinear_arith)
        requires
            0 <= by <= 0xffff_ffff,
            0 <= floor <= 0xffff_ffff,
            0 <= max <= 0xffff_ffff,
    {}
    lemma_scale_bounds(by * max, 100);
    lemma_scale_bounds(floor * max, 100);
}

} // verus!
