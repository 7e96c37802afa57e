//! The command codes of every message kind, and the fixed payload values
//! some requests carry.
use vstd::prelude::*;

verus! {

pub const BOOT_REQUEST: u16 = 0x4004;
pub const BOOT_RESPONSE: u16 = 0x4084;
pub const BOOT_CONFIRM_REQUEST: u16 = 0x4000;
pub const BOOT_CONFIRM_RESPONSE: u16 = 0x4080;
/// Shared by the lock and the unlock request; the payload tells them apart.
pub const LOCK_REQUEST: u16 = 0xA236;
pub const LOCK_RESPONSE: u16 = 0xA0F9;
/// Shared by the handshake request and its response.
pub const HANDSHAKE_REQUEST: u16 = 0x4003;
/// Shared by the update-time request and its acknowledgement.
pub const UPDATE_TIME_REQUEST: u16 = 0x4022;
pub const UPDATE_TIME_RESPONSE: u16 = 0x40A2;
/// Shared by the samples request and its acknowledgement.
pub const SAMPLES_REQUEST: u16 = 0x4024;
pub const SAMPLES_RESPONSE: u16 = 0x40A4;
/// Shared by the schedule request and its response.
pub const SCHEDULE_REQUEST: u16 = 0x4023;
pub const BROADCAST: u16 = 0xA013;

/// Payload of an unlock request.
pub const UNLOCK_MAGIC: u32 = 0xFCFF9001;
/// Payload of a lock request.
pub const LOCK_MAGIC: u32 = 0xFCFF0001;
/// Flags word of a handshake request.
pub const HANDSHAKE_FLAGS: u16 = 0x0500;
/// Flags word of a samples request.
pub const SAMPLES_FLAGS: u16 = 0x0A00;

} // verus!
