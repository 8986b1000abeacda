//! Selection of a usable monitor from the enumerated candidates.
//!
//! Enumeration and the brightness-feature probe are the caller's capability:
//! the caller reports each candidate's model name and, where asked, the
//! probe's outcome. The decisions — which candidate to probe for a named
//! request, whether a probe makes the device usable, and which error a
//! failed selection carries — are made here.

use crate::device::DeviceState;
use vstd::prelude::*;

verus! {

/// The requested device is absent, or present but unusable for brightness
/// control over DDC/CI; the two are deliberately reported the same way.
#[derive(Debug)]
pub struct DeviceDoesntExistError {
    device_name: String,
}

impl DeviceDoesntExistError {
    /// The requested name, or "N/A" when no name was requested and no
    /// usable device was found.
    pub closed spec fn spec_device_name(&self) -> Seq<char> {
        self.device_name@
    }

    pub fn new(device_name: String) -> (r: Self)
        ensures
            r.spec_device_name() == device_name@,
    {
        DeviceDoesntExistError { device_name }
    }

    pub fn device_name(&self) -> (r: &String)
        ensures
            r@ == self.spec_device_name(),
    {
        &self.device_name
    }
}

/// What probing the brightness feature of one monitor reported.
#[derive(Clone, Copy, Debug)]
pub enum ProbeOutcome {
    /// The probe answered with the monitor's current and maximum raw values.
    Supported { current: u32, max: u32 },
    /// The probe failed: the feature is unsupported or the bus errored.
    Unsupported,
}

/// A probe makes a monitor usable when it succeeded with a positive range
/// that contains the reported current value; a zero-range device is not
/// selectable.
pub open spec fn probe_usable(o: ProbeOutcome) -> bool {
    match o {
        ProbeOutcome::Supported { current, max } => 0 < max && current <= max,
        ProbeOutcome::Unsupported => false,
    }
}

pub open spec fn probe_current(o: ProbeOutcome) -> u32 {
    match o {
        ProbeOutcome::Supported { current, .. } => current,
        ProbeOutcome::Unsupported => 0,
    }
}

pub open spec fn probe_max(o: ProbeOutcome) -> u32 {
    match o {
        ProbeOutcome::Supported { max, .. } => max,
        ProbeOutcome::Unsupported => 0,
    }
}

/// An entry of the candidate list matches a requested name exactly.
pub open spec fn name_matches(entry: Option<String>, name: Seq<char>) -> bool {
    entry matches Some(m) && m@ == name
}

/// The device state a probe outcome yields: `Some` exactly when the probe
/// made the monitor usable.
pub fn device_from_probe(outcome: &ProbeOutcome) -> (r: Option<DeviceState>)
    ensures
        r is Some <==> probe_usable(*outcome),
        r matches Some(d) ==> d.inv() && d.spec_current() == probe_current(*outcome)
            && d.spec_max() == probe_max(*outcome),
{
    match outcome {
        ProbeOutcome::Supported { current, max } => {
            if 0 < *max && *current <= *max {
                Some(DeviceState::new(*current, *max))
            } else {
                None
            }
        },
        ProbeOutcome::Unsupported => None,
    }
}

/// The position of the first candidate whose model name is exactly the
/// requested one, if any.
pub fn find_named(names: &Vec<Option<String>>, name: &String) -> (r: Option<usize>)
    ensures
        r matches Some(i) ==> i < names@.len() && name_matches(names@[i as int], name@)
            && forall|j: int| 0 <= j < i ==> !name_matches(names@[j], name@),
        r is None ==> forall|j: int| 0 <= j < names@.len() ==> !name_matches(names@[j], name@),
{
    let mut i: usize = 0;
    while i < names.len()
        invariant
            i <= names@.len(),
            forall|j: int| 0 <= j < i ==> !name_matches(names@[j], name@),
        decreases names@.len() - i,
    {
        match &names[i] {
            Some(m) => {
                if *m == *name {
                    return Some(i);
                }
            },
            None => {},
        }
        i = i + 1;
    }
    None
}

/// Selection by name: the position of the candidate to probe, or the
/// failure a missing name is reported as.
pub fn select_named(names: &Vec<Option<String>>, name: &String) -> (r: Result<
    usize,
    DeviceDoesntExistError,
>)
    ensures
        r matches Ok(i) ==> i < names@.len() && name_matches(names@[i as int], name@)
            && forall|j: int| 0 <= j < i ==> !name_matches(names@[j], name@),
        r matches Err(e) ==> e.spec_device_name() == name@ && forall|j: int|
            0 <= j < names@.len() ==> !name_matches(names@[j], name@),
{
    match find_named(names, name) {
        Some(i) => Ok(i),
        None => Err(DeviceDoesntExistError::new(name.clone())),
    }
}

/// The outcome of probing a named candidate: the device, or the same
/// not-found failure — a present but unusable device is intentionally
/// reported as if it did not exist.
pub fn named_device(name: &String, outcome: &ProbeOutcome) -> (r: Result<
    DeviceState,
    DeviceDoesntExistError,
>)
    ensures
        r is Ok <==> probe_usable(*outcome),
        r matches Ok(d) ==> d.inv() && d.spec_current() == probe_current(*outcome)
            && d.spec_max() == probe_max(*outcome),
        r matches Err(e) ==> e.spec_device_name() == name@,
{
    match device_from_probe(outcome) {
        Some(d) => Ok(d),
        None => Err(DeviceDoesntExistError::new(name.clone())),
    }
}

/// Unnamed selection over the probe outcomes in discovery order: the first
/// usable monitor and its position, or the "N/A" failure when none is.
pub fn select_from_probes(outcomes: &Vec<ProbeOutcome>) -> (r: Result<
    (usize, DeviceState),
    DeviceDoesntExistError,
>)
    ensures
        r matches Ok((i, d)) ==> i < outcomes@.len() && probe_usable(outcomes@[i as int])
            && d.inv() && d.spec_current() == probe_current(outcomes@[i as int])
            && d.spec_max() == probe_max(outcomes@[i as int])
            && forall|j: int| 0 <= j < i ==> !probe_usable(outcomes@[j]),
        r matches Err(e) ==> e.spec_device_name() == "N/A"@ && forall|j: int|
            0 <= j < outcomes@.len() ==> !probe_usable(outcomes@[j]),
{
    let mut i: usize = 0;
    while i < outcomes.len()
        invariant
            i <= outcomes@.len(),
            forall|j: int| 0 <= j < i ==> !probe_usable(outcomes@[j]),
        decreases outcomes@.len() - i,
    {
        match device_from_probe(&outcomes[i]) {
            Some(d) => {
                return Ok((i, d));
            },
            None => {},
        }
        i = i + 1;
    }
    Err(DeviceDoesntExistError::new("N/A".to_owned()))
}

} // verus!
