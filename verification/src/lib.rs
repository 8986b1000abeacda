//! Verified core of a DDC/CI backlight-brightness backend.
//!
//! The crate holds the device-independent logic: conversion between raw
//! device units and percentages, monitor selection, the bounds-checked
//! device state, and the raise/lower/set command computations. The hardware
//! bus itself (enumerating displays and exchanging VCP feature values) is a
//! capability the caller supplies around this core.

pub mod commands;
pub mod convert;
pub mod device;
pub mod discovery;
