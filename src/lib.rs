//! Module registry core of a status bar, with the bluetooth module as its
//! listener-backed example.
use vstd::prelude::*;

pub mod action;
pub mod bluetooth;
pub mod registry;

verus! {

} // verus!
