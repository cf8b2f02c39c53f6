//! Tags of the device information namespace.

use vstd::prelude::*;

verus! {

pub const SERIAL_NUMBER: u32 = 0x0A00_0001;

pub const IP_ADDRESS: u32 = 0x0A00_0008;

pub const MAC_ADDRESS: u32 = 0x0A00_000A;

pub const SW_RELEASE: u32 = 0x0A00_0019;

} // verus!
