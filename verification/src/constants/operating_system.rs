//! Windows versions.
use vstd::prelude::*;

verus! {

pub const WINDOWS_11_BUILD_VERSION: u32 = 22000;

pub const WINDOWS_11_MAJOR_VERSION: u32 = 10;

} // verus!
