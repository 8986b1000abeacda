//! State of one selected monitor: its current and maximum raw brightness,
//! and the bounds-checked write protocol around it.
//!
//! The hardware exchange itself is the caller's capability. A write is a
//! two-step session: `write_raw_value` (or `write_percent_value`) yields the
//! bounded raw value to issue on the bus, and `apply_write` records the
//! outcome, updating the state only when the bus accepted the value.

use crate::convert::{
    min_int, percent_from_raw, raw_from_percent, spec_percent_from_raw, spec_raw_from_percent,
};
use vstd::prelude::*;

verus! {

/// A bounded write to the hardware failed; the device state is unchanged.
#[derive(Debug)]
pub struct ProtocolWriteError;

/// Current and maximum raw brightness of one selected monitor.
///
/// The maximum is fixed when the monitor is selected; the current value
/// moves only through writes that were bounded to `[0, max]` first.
#[derive(Debug)]
pub struct DeviceState {
    current: u32,
    max: u32,
}

impl DeviceState {
    /// The current raw brightness.
    pub closed spec fn spec_current(&self) -> u32 {
        self.current
    }

    /// The maximum raw brightness, fixed at selection time.
    pub closed spec fn spec_max(&self) -> u32 {
        self.max
    }

    /// The device invariant: a positive range that contains the current value.
    pub open spec fn inv(&self) -> bool {
        0 < self.spec_max() && self.spec_current() <= self.spec_max()
    }

    /// A freshly selected device, from the probed current and maximum values.
    pub fn new(current: u32, max: u32) -> (r: Self)
        requires
            0 < max,
            current <= max,
        ensures
            r.inv(),
            r.spec_current() == current,
            r.spec_max() == max,
    {
        DeviceState { current, max }
    }

    pub fn get_current(&self) -> (r: u32)
        ensures
            r == self.spec_current(),
    {
        self.current
    }

    pub fn get_max(&self) -> (r: u32)
        ensures
            r == self.spec_max(),
    {
        self.max
    }

    /// The current brightness as a percentage of the maximum.
    pub fn get_percent(&self) -> (r: u32)
        requires
            self.inv(),
        ensures
            r == spec_percent_from_raw(self.spec_current() as int, self.spec_max() as int),
            r <= 100,
    {
        percent_from_raw(self.current, self.max)
    }

    /// The raw value a write of `val` will put on the bus: `val` bounded to
    /// the device range.
    pub fn write_raw_value(&self, val: u32) -> (r: u32)
        requires
            self.inv(),
        ensures
            r == min_int(val as int, self.spec_max() as int),
            r <= self.spec_max(),
    {
        if val > self.max {
            self.max
        } else {
            val
        }
    }

    /// The raw value a percentage write of `val` will put on the bus:
    /// `val` bounded to `[0, 100]`, then converted to raw units.
    pub fn write_percent_value(&self, val: u32) -> (r: u32)
        requires
            self.inv(),
        ensures
            r == spec_raw_from_percent(min_int(val as int, 100), self.spec_max() as int),
            r <= self.spec_max(),
    {
        let bounded = if val > 100 {
            100
        } else {
            val
        };
        raw_from_percent(bounded, self.max)
    }

    /// Record the outcome of a bounded write that was issued on the bus.
    /// On success the current value becomes the written one; on failure the
    /// state is unchanged and the error is the caller's to handle.
    pub fn apply_write(&mut self, val: u32, accepted: bool) -> (r: Result<(), ProtocolWriteError>)
        requires
            old(self).inv(),
            val <= old(self).spec_max(),
        ensures
            final(self).inv(),
            final(self).spec_max() == old(self).spec_max(),
            accepted ==> r is Ok && final(self).spec_current() == val,
            !accepted ==> r is Err && final(self).spec_current() == old(self).spec_current(),
    {
        if accepted {
            self.current = val;
            Ok(())
        } else {
            Err(ProtocolWriteError)
        }
    }
}

} // verus!
