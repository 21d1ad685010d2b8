//! Fixed assignment of logical channels to doorbell bits, shared with the
//! coprocessor's firmware.

pub mod cpu1;
pub mod cpu2;
