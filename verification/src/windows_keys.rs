//! Windows: virtual keys, scan codes, and the numbers in input events and messages.

use crate::geometry::Point;
use crate::mapping;
use crate::numeric;
use crate::platform;
use crate::platform::ScrollSource;
use vstd::prelude::*;

verus! {

pub const KEYEVENTF_EXTENDEDKEY: u32 = 0x0001;

pub const KEYEVENTF_KEYUP: u32 = 0x0002;

pub const KEYEVENTF_SCANCODE: u32 = 0x0008;

pub const MOUSEEVENTF_MOVE: u32 = 0x0001;

pub const MOUSEEVENTF_LEFTDOWN: u32 = 0x0002;

pub const MOUSEEVENTF_LEFTUP: u32 = 0x0004;

pub const MOUSEEVENTF_RIGHTDOWN: u32 = 0x0008;

pub const MOUSEEVENTF_RIGHTUP: u32 = 0x0010;

pub const MOUSEEVENTF_MIDDLEDOWN: u32 = 0x0020;

pub const MOUSEEVENTF_MIDDLEUP: u32 = 0x0040;

pub const MOUSEEVENTF_XDOWN: u32 = 0x0080;

pub const MOUSEEVENTF_XUP: u32 = 0x0100;

pub const MOUSEEVENTF_WHEEL: u32 = 0x0800;

pub const MOUSEEVENTF_HWHEEL: u32 = 0x1000;

pub const MOUSEEVENTF_VIRTUALDESK: u32 = 0x4000;

pub const MOUSEEVENTF_ABSOLUTE: u32 = 0x8000;

/// The mark of touch input in the additional information of an event.
pub const MOUSEEVENTF_FROMTOUCH: usize = 0xff51_5700;

/// The part of that information that holds the mark.
pub const MOUSEEVENTF_MASK: usize = 0xffff_ff00;

/// What one notch of a wheel counts.
pub const WHEEL_DELTA: i32 = 120;

pub const WM_SYNLY_MOUSE_WHEEL: u32 = 0x8007;

pub const WM_SYNLY_MOUSE_TRACKPAD_WHEEL: u32 = 0x8008;

/// How the system is asked for the virtual key of a scan code.
pub const MAPVK_VSC_TO_VK: u32 = 1;

/// The same for a scan code of an extended key.
pub const MAPVK_VSC_TO_VK_EX: u32 = 3;

/// The usage of the key with this virtual key number; zero for none.
pub open spec fn usage_of_virtual_key(vk: u16) -> u16 {
    match vk {
        0x08 => 0x2a,
        0x09 => 0x2b,
        0x0d => 0x28,
        0x1b => 0x29,
        0x20 => 0x2c,
        0x25 => 0x50,
        0x26 => 0x52,
        0x27 => 0x4f,
        0x28 => 0x51,
        0x2e => 0x4c,
        0x30 => 0x27,
        0x31 => 0x1e,
        0x32 => 0x1f,
        0x33 => 0x20,
        0x34 => 0x21,
        0x35 => 0x22,
        0x36 => 0x23,
        0x37 => 0x24,
        0x38 => 0x25,
        0x39 => 0x26,
        0x41 => 0x04,
        0x42 => 0x05,
        0x43 => 0x06,
        0x44 => 0x07,
        0x45 => 0x08,
        0x46 => 0x09,
        0x47 => 0x0a,
        0x48 => 0x0b,
        0x49 => 0x0c,
        0x4a => 0x0d,
        0x4b => 0x0e,
        0x4c => 0x0f,
        0x4d => 0x10,
        0x4e => 0x11,
        0x4f => 0x12,
        0x50 => 0x13,
        0x51 => 0x14,
        0x52 => 0x15,
        0x53 => 0x16,
        0x54 => 0x17,
        0x55 => 0x18,
        0x56 => 0x19,
        0x57 => 0x1a,
        0x58 => 0x1b,
        0x59 => 0x1c,
        0x5a => 0x1d,
        0x5b => 0xe3,
        0x5c => 0xe7,
        0x70 => 0x3a,
        0x71 => 0x3b,
        0x72 => 0x3c,
        0x73 => 0x3d,
        0x74 => 0x3e,
        0x75 => 0x3f,
        0x76 => 0x40,
        0x77 => 0x41,
        0x78 => 0x42,
        0x79 => 0x43,
        0x7a => 0x44,
        0x7b => 0x45,
        0x7c => 0x68,
        0x7d => 0x69,
        0x7e => 0x6a,
        0x7f => 0x6b,
        0x80 => 0x6c,
        0x81 => 0x6d,
        0x82 => 0x6e,
        0x83 => 0x6f,
        0x84 => 0x70,
        0x85 => 0x71,
        0x86 => 0x72,
        0x87 => 0x73,
        0xa0 => 0xe1,
        0xa1 => 0xe5,
        0xa2 => 0xe0,
        0xa3 => 0xe4,
        0xa4 => 0xe2,
        0xa5 => 0xe6,
        _ => 0,
    }
}

/// The virtual key number of the key with this usage.
pub open spec fn virtual_key_of_usage(usage: u16) -> Option<u16> {
    match usage {
        0x04 => Some(0x41),
        0x05 => Some(0x42),
        0x06 => Some(0x43),
        0x07 => Some(0x44),
        0x08 => Some(0x45),
        0x09 => Some(0x46),
        0x0a => Some(0x47),
        0x0b => Some(0x48),
        0x0c => Some(0x49),
        0x0d => Some(0x4a),
        0x0e => Some(0x4b),
        0x0f => Some(0x4c),
        0x10 => Some(0x4d),
        0x11 => Some(0x4e),
        0x12 => Some(0x4f),
        0x13 => Some(0x50),
        0x14 => Some(0x51),
        0x15 => Some(0x52),
        0x16 => Some(0x53),
        0x17 => Some(0x54),
        0x18 => Some(0x55),
        0x19 => Some(0x56),
        0x1a => Some(0x57),
        0x1b => Some(0x58),
        0x1c => Some(0x59),
        0x1d => Some(0x5a),
        0x1e => Some(0x31),
        0x1f => Some(0x32),
        0x20 => Some(0x33),
        0x21 => Some(0x34),
        0x22 => Some(0x35),
        0x23 => Some(0x36),
        0x24 => Some(0x37),
        0x25 => Some(0x38),
        0x26 => Some(0x39),
        0x27 => Some(0x30),
        0x28 => Some(0x0d),
        0x29 => Some(0x1b),
        0x2a => Some(0x08),
        0x2b => Some(0x09),
        0x2c => Some(0x20),
        0x3a => Some(0x70),
        0x3b => Some(0x71),
        0x3c => Some(0x72),
        0x3d => Some(0x73),
        0x3e => Some(0x74),
        0x3f => Some(0x75),
        0x40 => Some(0x76),
        0x41 => Some(0x77),
        0x42 => Some(0x78),
        0x43 => Some(0x79),
        0x44 => Some(0x7a),
        0x45 => Some(0x7b),
        0x4c => Some(0x2e),
        0x4f => Some(0x27),
        0x50 => Some(0x25),
        0x51 => Some(0x28),
        0x52 => Some(0x26),
        0x68 => Some(0x7c),
        0x69 => Some(0x7d),
        0x6a => Some(0x7e),
        0x6b => Some(0x7f),
        0x6c => Some(0x80),
        0x6d => Some(0x81),
        0x6e => Some(0x82),
        0x6f => Some(0x83),
        0x70 => Some(0x84),
        0x71 => Some(0x85),
        0x72 => Some(0x86),
        0x73 => Some(0x87),
        0xe0 => Some(0xa2),
        0xe1 => Some(0xa0),
        0xe2 => Some(0xa4),
        0xe3 => Some(0x5b),
        0xe4 => Some(0xa3),
        0xe5 => Some(0xa1),
        0xe6 => Some(0xa5),
        0xe7 => Some(0x5c),
        _ => None,
    }
}

/// The scan code of the key with this usage, and whether the key is an extended one.
pub open spec fn scan_of_usage(usage: u16) -> Option<(u16, bool)> {
    match usage {
        0x04 => Some((0x1e, false)),
        0x05 => Some((0x30, false)),
        0x06 => Some((0x2e, false)),
        0x07 => Some((0x20, false)),
        0x08 => Some((0x12, false)),
        0x09 => Some((0x21, false)),
        0x0a => Some((0x22, false)),
        0x0b => Some((0x23, false)),
        0x0c => Some((0x17, false)),
        0x0d => Some((0x24, false)),
        0x0e => Some((0x25, false)),
        0x0f => Some((0x26, false)),
        0x10 => Some((0x32, false)),
        0x11 => Some((0x31, false)),
        0x12 => Some((0x18, false)),
        0x13 => Some((0x19, false)),
        0x14 => Some((0x10, false)),
        0x15 => Some((0x13, false)),
        0x16 => Some((0x1f, false)),
        0x17 => Some((0x14, false)),
        0x18 => Some((0x16, false)),
        0x19 => Some((0x2f, false)),
        0x1a => Some((0x11, false)),
        0x1b => Some((0x2d, false)),
        0x1c => Some((0x15, false)),
        0x1d => Some((0x2c, false)),
        0x1e => Some((0x02, false)),
        0x1f => Some((0x03, false)),
        0x20 => Some((0x04, false)),
        0x21 => Some((0x05, false)),
        0x22 => Some((0x06, false)),
        0x23 => Some((0x07, false)),
        0x24 => Some((0x08, false)),
        0x25 => Some((0x09, false)),
        0x26 => Some((0x0a, false)),
        0x27 => Some((0x0b, false)),
        0x28 => Some((0x1c, false)),
        0x29 => Some((0x01, false)),
        0x2a => Some((0x0e, false)),
        0x2b => Some((0x0f, false)),
        0x2c => Some((0x39, false)),
        0x2d => Some((0x0c, false)),
        0x2e => Some((0x0d, false)),
        0x2f => Some((0x1a, false)),
        0x30 => Some((0x1b, false)),
        0x31 => Some((0x2b, false)),
        0x33 => Some((0x27, false)),
        0x34 => Some((0x28, false)),
        0x35 => Some((0x29, false)),
        0x36 => Some((0x33, false)),
        0x37 => Some((0x34, false)),
        0x38 => Some((0x35, false)),
        0x39 => Some((0x3a, false)),
        0x3a => Some((0x3b, false)),
        0x3b => Some((0x3c, false)),
        0x3c => Some((0x3d, false)),
        0x3d => Some((0x3e, false)),
        0x3e => Some((0x3f, false)),
        0x3f => Some((0x40, false)),
        0x40 => Some((0x41, false)),
        0x41 => Some((0x42, false)),
        0x42 => Some((0x43, false)),
        0x43 => Some((0x44, false)),
        0x44 => Some((0x57, false)),
        0x45 => Some((0x58, false)),
        0x49 => Some((0x52, true)),
        0x4a => Some((0x47, true)),
        0x4b => Some((0x49, true)),
        0x4c => Some((0x53, true)),
        0x4d => Some((0x4f, true)),
        0x4e => Some((0x51, true)),
        0x4f => Some((0x4d, true)),
        0x50 => Some((0x4b, true)),
        0x51 => Some((0x50, true)),
        0x52 => Some((0x48, true)),
        0x68 => Some((0x64, false)),
        0x69 => Some((0x65, false)),
        0x6a => Some((0x66, false)),
        0x6b => Some((0x67, false)),
        0x6c => Some((0x68, false)),
        0x6d => Some((0x69, false)),
        0x6e => Some((0x6a, false)),
        0x6f => Some((0x6b, false)),
        0x70 => Some((0x6c, false)),
        0x71 => Some((0x6d, false)),
        0x72 => Some((0x6e, false)),
        0x73 => Some((0x76, false)),
        0xe0 => Some((0x1d, false)),
        0xe1 => Some((0x2a, false)),
        0xe2 => Some((0x38, false)),
        0xe3 => Some((0x5b, true)),
        0xe4 => Some((0x1d, true)),
        0xe5 => Some((0x36, false)),
        0xe6 => Some((0x38, true)),
        0xe7 => Some((0x5c, true)),
        _ => None,
    }
}

/// The first usage whose key has this scan code.
pub open spec fn usage_of_scan(scan: u16) -> Option<u16> {
    match scan {
        0x01 => Some(0x29),
        0x02 => Some(0x1e),
        0x03 => Some(0x1f),
        0x04 => Some(0x20),
        0x05 => Some(0x21),
        0x06 => Some(0x22),
        0x07 => Some(0x23),
        0x08 => Some(0x24),
        0x09 => Some(0x25),
        0x0a => Some(0x26),
        0x0b => Some(0x27),
        0x0c => Some(0x2d),
        0x0d => Some(0x2e),
        0x0e => Some(0x2a),
        0x0f => Some(0x2b),
        0x10 => Some(0x14),
        0x11 => Some(0x1a),
        0x12 => Some(0x08),
        0x13 => Some(0x15),
        0x14 => Some(0x17),
        0x15 => Some(0x1c),
        0x16 => Some(0x18),
        0x17 => Some(0x0c),
        0x18 => Some(0x12),
        0x19 => Some(0x13),
        0x1a => Some(0x2f),
        0x1b => Some(0x30),
        0x1c => Some(0x28),
        0x1d => Some(0xe0),
        0x1e => Some(0x04),
        0x1f => Some(0x16),
        0x20 => Some(0x07),
        0x21 => Some(0x09),
        0x22 => Some(0x0a),
        0x23 => Some(0x0b),
        0x24 => Some(0x0d),
        0x25 => Some(0x0e),
        0x26 => Some(0x0f),
        0x27 => Some(0x33),
        0x28 => Some(0x34),
        0x29 => Some(0x35),
        0x2a => Some(0xe1),
        0x2b => Some(0x31),
        0x2c => Some(0x1d),
        0x2d => Some(0x1b),
        0x2e => Some(0x06),
        0x2f => Some(0x19),
        0x30 => Some(0x05),
        0x31 => Some(0x11),
        0x32 => Some(0x10),
        0x33 => Some(0x36),
        0x34 => Some(0x37),
        0x35 => Some(0x38),
        0x36 => Some(0xe5),
        0x38 => Some(0xe2),
        0x39 => Some(0x2c),
        0x3a => Some(0x39),
        0x3b => Some(0x3a),
        0x3c => Some(0x3b),
        0x3d => Some(0x3c),
        0x3e => Some(0x3d),
        0x3f => Some(0x3e),
        0x40 => Some(0x3f),
        0x41 => Some(0x40),
        0x42 => Some(0x41),
        0x43 => Some(0x42),
        0x44 => Some(0x43),
        0x47 => Some(0x4a),
        0x48 => Some(0x52),
        0x49 => Some(0x4b),
        0x4b => Some(0x50),
        0x4d => Some(0x4f),
        0x4f => Some(0x4d),
        0x50 => Some(0x51),
        0x51 => Some(0x4e),
        0x52 => Some(0x49),
        0x53 => Some(0x4c),
        0x57 => Some(0x44),
        0x58 => Some(0x45),
        0x5b => Some(0xe3),
        0x5c => Some(0xe7),
        0x64 => Some(0x68),
        0x65 => Some(0x69),
        0x66 => Some(0x6a),
        0x67 => Some(0x6b),
        0x68 => Some(0x6c),
        0x69 => Some(0x6d),
        0x6a => Some(0x6e),
        0x6b => Some(0x6f),
        0x6c => Some(0x70),
        0x6d => Some(0x71),
        0x6e => Some(0x72),
        0x76 => Some(0x73),
        _ => None,
    }
}

/// The usage of the key with this virtual key number; zero for none.
pub fn vk_to_hid(vk: u16) -> (r: u16)
    ensures
        r == usage_of_virtual_key(vk),
{
    match vk {
        0x08 => 0x2a,
        0x09 => 0x2b,
        0x0d => 0x28,
        0x1b => 0x29,
        0x20 => 0x2c,
        0x25 => 0x50,
        0x26 => 0x52,
        0x27 => 0x4f,
        0x28 => 0x51,
        0x2e => 0x4c,
        0x30 => 0x27,
        0x31 => 0x1e,
        0x32 => 0x1f,
        0x33 => 0x20,
        0x34 => 0x21,
        0x35 => 0x22,
        0x36 => 0x23,
        0x37 => 0x24,
        0x38 => 0x25,
        0x39 => 0x26,
        0x41 => 0x04,
        0x42 => 0x05,
        0x43 => 0x06,
        0x44 => 0x07,
        0x45 => 0x08,
        0x46 => 0x09,
        0x47 => 0x0a,
        0x48 => 0x0b,
        0x49 => 0x0c,
        0x4a => 0x0d,
        0x4b => 0x0e,
        0x4c => 0x0f,
        0x4d => 0x10,
        0x4e => 0x11,
        0x4f => 0x12,
        0x50 => 0x13,
        0x51 => 0x14,
        0x52 => 0x15,
        0x53 => 0x16,
        0x54 => 0x17,
        0x55 => 0x18,
        0x56 => 0x19,
        0x57 => 0x1a,
        0x58 => 0x1b,
        0x59 => 0x1c,
        0x5a => 0x1d,
        0x5b => 0xe3,
        0x5c => 0xe7,
        0x70 => 0x3a,
        0x71 => 0x3b,
        0x72 => 0x3c,
        0x73 => 0x3d,
        0x74 => 0x3e,
        0x75 => 0x3f,
        0x76 => 0x40,
        0x77 => 0x41,
        0x78 => 0x42,
        0x79 => 0x43,
        0x7a => 0x44,
        0x7b => 0x45,
        0x7c => 0x68,
        0x7d => 0x69,
        0x7e => 0x6a,
        0x7f => 0x6b,
        0x80 => 0x6c,
        0x81 => 0x6d,
        0x82 => 0x6e,
        0x83 => 0x6f,
        0x84 => 0x70,
        0x85 => 0x71,
        0x86 => 0x72,
        0x87 => 0x73,
        0xa0 => 0xe1,
        0xa1 => 0xe5,
        0xa2 => 0xe0,
        0xa3 => 0xe4,
        0xa4 => 0xe2,
        0xa5 => 0xe6,
        _ => 0,
    }
}

/// The scan code of the key with this usage, and whether the key is an extended one.
pub fn hid_to_windows_scan(usage: u16) -> (r: Option<(u16, bool)>)
    ensures
        r == scan_of_usage(usage),
{
    match usage {
        0x04 => Some((0x1e, false)),
        0x05 => Some((0x30, false)),
        0x06 => Some((0x2e, false)),
        0x07 => Some((0x20, false)),
        0x08 => Some((0x12, false)),
        0x09 => Some((0x21, false)),
        0x0a => Some((0x22, false)),
        0x0b => Some((0x23, false)),
        0x0c => Some((0x17, false)),
        0x0d => Some((0x24, false)),
        0x0e => Some((0x25, false)),
        0x0f => Some((0x26, false)),
        0x10 => Some((0x32, false)),
        0x11 => Some((0x31, false)),
        0x12 => Some((0x18, false)),
        0x13 => Some((0x19, false)),
        0x14 => Some((0x10, false)),
        0x15 => Some((0x13, false)),
        0x16 => Some((0x1f, false)),
        0x17 => Some((0x14, false)),
        0x18 => Some((0x16, false)),
        0x19 => Some((0x2f, false)),
        0x1a => Some((0x11, false)),
        0x1b => Some((0x2d, false)),
        0x1c => Some((0x15, false)),
        0x1d => Some((0x2c, false)),
        0x1e => Some((0x02, false)),
        0x1f => Some((0x03, false)),
        0x20 => Some((0x04, false)),
        0x21 => Some((0x05, false)),
        0x22 => Some((0x06, false)),
        0x23 => Some((0x07, false)),
        0x24 => Some((0x08, false)),
        0x25 => Some((0x09, false)),
        0x26 => Some((0x0a, false)),
        0x27 => Some((0x0b, false)),
        0x28 => Some((0x1c, false)),
        0x29 => Some((0x01, false)),
        0x2a => Some((0x0e, false)),
        0x2b => Some((0x0f, false)),
        0x2c => Some((0x39, false)),
        0x2d => Some((0x0c, false)),
        0x2e => Some((0x0d, false)),
        0x2f => Some((0x1a, false)),
        0x30 => Some((0x1b, false)),
        0x31 => Some((0x2b, false)),
        0x33 => Some((0x27, false)),
        0x34 => Some((0x28, false)),
        0x35 => Some((0x29, false)),
        0x36 => Some((0x33, false)),
        0x37 => Some((0x34, false)),
        0x38 => Some((0x35, false)),
        0x39 => Some((0x3a, false)),
        0x3a => Some((0x3b, false)),
        0x3b => Some((0x3c, false)),
        0x3c => Some((0x3d, false)),
        0x3d => Some((0x3e, false)),
        0x3e => Some((0x3f, false)),
        0x3f => Some((0x40, false)),
        0x40 => Some((0x41, false)),
        0x41 => Some((0x42, false)),
        0x42 => Some((0x43, false)),
        0x43 => Some((0x44, false)),
        0x44 => Some((0x57, false)),
        0x45 => Some((0x58, false)),
        0x49 => Some((0x52, true)),
        0x4a => Some((0x47, true)),
        0x4b => Some((0x49, true)),
        0x4c => Some((0x53, true)),
        0x4d => Some((0x4f, true)),
        0x4e => Some((0x51, true)),
        0x4f => Some((0x4d, true)),
        0x50 => Some((0x4b, true)),
        0x51 => Some((0x50, true)),
        0x52 => Some((0x48, true)),
        0x68 => Some((0x64, false)),
        0x69 => Some((0x65, false)),
        0x6a => Some((0x66, false)),
        0x6b => Some((0x67, false)),
        0x6c => Some((0x68, false)),
        0x6d => Some((0x69, false)),
        0x6e => Some((0x6a, false)),
        0x6f => Some((0x6b, false)),
        0x70 => Some((0x6c, false)),
        0x71 => Some((0x6d, false)),
        0x72 => Some((0x6e, false)),
        0x73 => Some((0x76, false)),
        0xe0 => Some((0x1d, false)),
        0xe1 => Some((0x2a, false)),
        0xe2 => Some((0x38, false)),
        0xe3 => Some((0x5b, true)),
        0xe4 => Some((0x1d, true)),
        0xe5 => Some((0x36, false)),
        0xe6 => Some((0x38, true)),
        0xe7 => Some((0x5c, true)),
        _ => None,
    }
}

/// A virtual key and a usage that stand for each other do so in both directions.
pub proof fn virtual_keys_round_trip(vk: u16, usage: u16)
    requires
        usage != 0,
    ensures
        usage_of_virtual_key(vk) == usage <==> virtual_key_of_usage(usage) == Some(vk),
{
}

/// Every virtual key with a usage has a scan code.
pub proof fn virtual_keys_have_scan_codes(vk: u16)
    requires
        usage_of_virtual_key(vk) != 0,
    ensures
        scan_of_usage(usage_of_virtual_key(vk)) is Some,
{
}

/// A key is found by its scan code again. The right control and alt keys share theirs with the
/// left ones.
pub proof fn scan_codes_round_trip(usage: u16)
    requires
        scan_of_usage(usage) is Some,
        usage != 0xe4,
        usage != 0xe6,
    ensures
        usage_of_scan((scan_of_usage(usage)->0).0) == Some(usage),
{
}

proof fn lemma_scan_of_found(scan: u16)
    ensures
        match usage_of_scan(scan) {
            Some(usage) => scan_of_usage(usage) is Some && (scan_of_usage(usage)->0).0 == scan,
            None => true,
        },
{
}

proof fn lemma_found_is_first(usage: u16)
    ensures
        scan_of_usage(usage) matches Some(code) ==> {
            &&& 0x04 <= usage <= 0xe7
            &&& usage_of_scan(code.0) is Some
            &&& usage_of_scan(code.0)->0 <= usage
        },
{
}

/// The first usage whose key has this scan code.
pub fn scan_to_hid(scan: u16) -> (r: Option<u16>)
    ensures
        r == usage_of_scan(scan),
        match r {
            Some(usage) => scan_of_usage(usage) is Some && (scan_of_usage(usage)->0).0 == scan
                && forall|u: u16|
                (#[trigger] scan_of_usage(u)) matches Some(code) && code.0 == scan ==> usage <= u,
            None => forall|u: u16|
                (#[trigger] scan_of_usage(u)) matches Some(code) ==> code.0 != scan,
        },
{
    proof {
        assert forall|u: u16|
            (#[trigger] scan_of_usage(u)) matches Some(code) && code.0 == scan implies usage_of_scan(scan) is Some
            && usage_of_scan(scan)->0 <= u by {
            lemma_found_is_first(u);
        }
        lemma_scan_of_found(scan);
        if usage_of_scan(scan) is Some {
            lemma_found_is_first(usage_of_scan(scan)->0);
        }
    }
    let mut usage: u16 = 0x04;
    while usage <= 0xe7
        invariant
            0x04 <= usage <= 0xe8,
            forall|u: u16|
                u < usage ==> ((#[trigger] scan_of_usage(u)) matches Some(code) ==> code.0 != scan
                    || u < 0x04),
            forall|u: u16|
                (#[trigger] scan_of_usage(u)) matches Some(code) && code.0 == scan
                    ==> usage_of_scan(scan) is Some && usage_of_scan(scan)->0 <= u,
            usage_of_scan(scan) is Some ==> {
                &&& scan_of_usage(usage_of_scan(scan)->0) is Some
                &&& (scan_of_usage(usage_of_scan(scan)->0)->0).0 == scan
                &&& 0x04 <= usage_of_scan(scan)->0 <= 0xe7
            },
        decreases 0xe8 - usage,
    {
        if let Some(code) = hid_to_windows_scan(usage) {
            if code.0 == scan {
                return Some(usage);
            }
        }
        usage += 1;
    }
    None
}

/// The usage of a key event: by the virtual key, or else by the scan code.
pub open spec fn usage_of_event(scan: u16, vk: u16) -> Option<u16> {
    if usage_of_virtual_key(vk) != 0 {
        Some(usage_of_virtual_key(vk))
    } else {
        usage_of_scan(scan)
    }
}

/// The usage of a key event: by the virtual key, or else by the scan code.
pub fn windows_scan_to_hid(scan: u16, vk: u16) -> (r: Option<u16>)
    ensures
        r == usage_of_event(scan, vk),
{
    let usage: u16 = vk_to_hid(vk);
    if usage != 0 {
        Some(usage)
    } else {
        scan_to_hid(scan)
    }
}

/// Usages of key events lie in one range.
pub proof fn event_usages_are_in_range(scan: u16, vk: u16)
    ensures
        usage_of_event(scan, vk) matches Some(usage) ==> 0x04 <= usage <= 0xe7,
{
    lemma_scan_of_found(scan);
    if let Some(usage) = usage_of_scan(scan) {
        lemma_found_is_first(usage);
    }
    virtual_key_usages_are_in_range(vk);
}

proof fn virtual_key_usages_are_in_range(vk: u16)
    ensures
        usage_of_virtual_key(vk) == 0 || 0x04 <= usage_of_virtual_key(vk) <= 0xe7,
{
}

/// How the system is asked for the virtual key of a scan code.
pub fn scan_map_type(extended: bool) -> (r: u32)
    ensures
        r == if extended {
            MAPVK_VSC_TO_VK_EX
        } else {
            MAPVK_VSC_TO_VK
        },
{
    if extended {
        MAPVK_VSC_TO_VK_EX
    } else {
        MAPVK_VSC_TO_VK
    }
}

/// The virtual key of a usage: from the table, or else what the system has for the scan code,
/// where zero is none. No usage but zero stands for the first virtual key.
pub open spec fn system_virtual_key(usage: u16, mapped: i32) -> Option<i32> {
    if usage == 0 {
        Some(1i32)
    } else {
        match virtual_key_of_usage(usage) {
            Some(vk) => Some(vk as i32),
            None => if scan_of_usage(usage) is Some && mapped != 0 {
                Some(mapped)
            } else {
                None
            },
        }
    }
}

/// The virtual key of a usage. `mapped` is what the system has for the scan code of the usage,
/// zero for none.
pub fn hid_to_windows_vk(usage: u16, mapped: i32) -> (r: Option<i32>)
    ensures
        r == system_virtual_key(usage, mapped),
{
    let mut vk: u16 = 0x01;
    while vk <= 0xfe
        invariant
            1 <= vk <= 0xff,
            forall|v: u16| 1 <= v < vk ==> #[trigger] usage_of_virtual_key(v) != usage,
        decreases 0xff - vk,
    {
        if vk_to_hid(vk) == usage {
            proof {
                if usage != 0 {
                    virtual_keys_round_trip(vk, usage);
                } else {
                    assert(usage_of_virtual_key(1) == 0);
                }
            }
            return Some(vk as i32);
        }
        vk += 1;
    }
    proof {
        if usage == 0 {
            assert(usage_of_virtual_key(1) == 0);
        } else if let Some(v) = virtual_key_of_usage(usage) {
            virtual_keys_round_trip(v, usage);
            lemma_virtual_keys_are_small(usage);
        }
    }
    if hid_to_windows_scan(usage).is_some() && mapped != 0 {
        Some(mapped)
    } else {
        None
    }
}

proof fn lemma_virtual_keys_are_small(usage: u16)
    ensures
        virtual_key_of_usage(usage) matches Some(vk) ==> 1 <= vk <= 0xfe,
{
}

/// What a scroll came from: touch input leaves its mark.
pub open spec fn source_of_extra_info(extra_info: usize) -> ScrollSource {
    if (extra_info as int / 0x100) % 0x100_0000 == 0xff_5157 {
        ScrollSource::Trackpad
    } else {
        ScrollSource::MouseWheel
    }
}

/// What a scroll came from.
pub fn scroll_source_from_extra_info(extra_info: usize) -> (r: ScrollSource)
    ensures
        r == source_of_extra_info(extra_info),
{
    assert((extra_info & 0xffff_ff00usize == 0xff51_5700usize) <==> ((extra_info / 0x100) % 0x100_0000
        == 0xff_5157)) by (bit_vector);
    if extra_info & MOUSEEVENTF_MASK == MOUSEEVENTF_FROMTOUCH {
        ScrollSource::Trackpad
    } else {
        ScrollSource::MouseWheel
    }
}

/// The message that hands a scroll over.
pub fn wheel_message(source: ScrollSource) -> (r: u32)
    ensures
        r == match source {
            ScrollSource::MouseWheel => WM_SYNLY_MOUSE_WHEEL,
            ScrollSource::Trackpad => WM_SYNLY_MOUSE_TRACKPAD_WHEEL,
        },
{
    match source {
        ScrollSource::MouseWheel => WM_SYNLY_MOUSE_WHEEL,
        ScrollSource::Trackpad => WM_SYNLY_MOUSE_TRACKPAD_WHEEL,
    }
}

/// A coordinate as a parameter of a message.
pub fn encode_coordinate(value: i32) -> (r: usize)
    ensures
        r == platform::raw_coordinate(value),
{
    platform::raw_of(value) as usize
}

/// The coordinate in a parameter of a message: its lower half.
pub fn decode_coordinate(value: usize) -> (r: i32)
    ensures
        r == platform::coordinate_of_raw(value as int % 0x1_0000_0000),
{
    platform::coordinate_of(value as u64 % 0x1_0000_0000)
}

/// The point in the parameters of a message.
pub fn decode_point(x: usize, y: usize) -> (r: Point)
    ensures
        r.x == platform::coordinate_of_raw(x as int % 0x1_0000_0000),
        r.y == platform::coordinate_of_raw(y as int % 0x1_0000_0000),
{
    Point { x: decode_coordinate(x), y: decode_coordinate(y) }
}

/// A coordinate comes out of a message as it went in.
pub proof fn coordinate_round_trip(value: i32)
    ensures
        platform::coordinate_of_raw(platform::raw_coordinate(value) % 0x1_0000_0000) == value,
{
}

/// A number divided, with the fraction cut off.
pub open spec fn cut_quotient(a: int, b: int) -> int {
    if a >= 0 {
        a / b
    } else {
        -((-a) / b)
    }
}

/// The amount that a wheel event holds in its upper half.
pub open spec fn wheel_amount(data: u32) -> int {
    let upper = data as int / 0x1_0000;
    if upper >= 0x8000 {
        upper - 0x1_0000
    } else {
        upper
    }
}

/// The whole notches of a wheel event.
pub fn wheel_notches(data: u32) -> (r: i32)
    ensures
        r == cut_quotient(wheel_amount(data), WHEEL_DELTA as int),
{
    let upper: i32 = (data / 0x1_0000) as i32;
    if upper >= 0x8000 {
        let below: i32 = 0x1_0000 - upper;
        -(below / WHEEL_DELTA)
    } else {
        upper / WHEEL_DELTA
    }
}

/// The number of the button with extra buttons told apart by the upper half of the data.
pub open spec fn extra_button(data: u32) -> u8 {
    if data / 0x1_0000 == 1 {
        4
    } else {
        5
    }
}

/// The scan code and flags of the event that presses or releases a key.
pub open spec fn key_event(usage: u16, down: bool) -> Option<(u16, u32)> {
    match scan_of_usage(usage) {
        Some((scan, extended)) => {
            let ext: int = if extended { 1 } else { 0 };
            let up: int = if down { 0 } else { 2 };
            Some((scan, (8 + ext + up) as u32))
        },
        None => None,
    }
}

/// The scan code and flags of the event that presses or releases a key. There is none for keys
/// that the system does not have.
pub fn keyboard_event(usage: u16, down: bool) -> (r: Option<(u16, u32)>)
    ensures
        r == key_event(usage, down),
{
    match hid_to_windows_scan(usage) {
        Some((scan, extended)) => {
            let ext: u32 = if extended { KEYEVENTF_EXTENDEDKEY } else { 0 };
            let up: u32 = if down { 0 } else { KEYEVENTF_KEYUP };
            Some((scan, KEYEVENTF_SCANCODE + ext + up))
        },
        None => None,
    }
}

/// The flags and data of the event that presses or releases a button.
pub open spec fn button_event(button: u8, down: bool) -> Option<(u32, u32)> {
    match button {
        1 => Some((if down { MOUSEEVENTF_LEFTDOWN } else { MOUSEEVENTF_LEFTUP }, 0u32)),
        2 => Some((if down { MOUSEEVENTF_MIDDLEDOWN } else { MOUSEEVENTF_MIDDLEUP }, 0u32)),
        3 => Some((if down { MOUSEEVENTF_RIGHTDOWN } else { MOUSEEVENTF_RIGHTUP }, 0u32)),
        4 => Some((if down { MOUSEEVENTF_XDOWN } else { MOUSEEVENTF_XUP }, 1u32)),
        5 => Some((if down { MOUSEEVENTF_XDOWN } else { MOUSEEVENTF_XUP }, 2u32)),
        _ => None,
    }
}

/// The flags and data of the event that presses or releases a button. Other buttons have none.
pub fn mouse_button_event(button: u8, down: bool) -> (r: Option<(u32, u32)>)
    ensures
        r == button_event(button, down),
{
    match button {
        1 => Some((if down { MOUSEEVENTF_LEFTDOWN } else { MOUSEEVENTF_LEFTUP }, 0)),
        2 => Some((if down { MOUSEEVENTF_MIDDLEDOWN } else { MOUSEEVENTF_MIDDLEUP }, 0)),
        3 => Some((if down { MOUSEEVENTF_RIGHTDOWN } else { MOUSEEVENTF_RIGHTUP }, 0)),
        4 => Some((if down { MOUSEEVENTF_XDOWN } else { MOUSEEVENTF_XUP }, 1)),
        5 => Some((if down { MOUSEEVENTF_XDOWN } else { MOUSEEVENTF_XUP }, 2)),
        _ => None,
    }
}

/// The data of the event that turns a wheel by some notches.
pub open spec fn wheel_data(notches: i32) -> u32 {
    platform::raw_coordinate(numeric::saturate(notches * 120) as i32) as u32
}

/// The data of the events that turn the wheels: the vertical one first, and none for a wheel
/// that does not turn.
pub fn wheel_events(x: i32, y: i32) -> (r: (Option<u32>, Option<u32>))
    ensures
        r.0 == if y != 0 {
            Some(wheel_data(y))
        } else {
            None
        },
        r.1 == if x != 0 {
            Some(wheel_data(x))
        } else {
            None
        },
{
    let vertical = if y != 0 {
        Some(platform::raw_of(numeric::clamp_wide(y as i64 * 120)) as u32)
    } else {
        None
    };
    let horizontal = if x != 0 {
        Some(platform::raw_of(numeric::clamp_wide(x as i64 * 120)) as u32)
    } else {
        None
    };
    (vertical, horizontal)
}

/// Where a coordinate lies on a scale from 0 to 65535 over an extent, rounded to the nearest.
pub open spec fn on_absolute_scale(coordinate: int, origin: int, extent: int) -> int {
    if extent <= 1 {
        0
    } else {
        let last = extent - 1;
        let relative = if coordinate - origin < 0 {
            0
        } else if coordinate - origin > last {
            last
        } else {
            coordinate - origin
        };
        (relative * 65535 + last / 2) / last
    }
}

/// The ends of the extent are the ends of the scale, and all else lies between them.
pub proof fn absolute_scale_is_covered(coordinate: int, origin: int, extent: int)
    ensures
        0 <= on_absolute_scale(coordinate, origin, extent) <= 65535,
        extent > 1 && coordinate <= origin ==> on_absolute_scale(coordinate, origin, extent) == 0,
        extent > 1 && coordinate >= origin + extent - 1 ==> on_absolute_scale(
            coordinate,
            origin,
            extent,
        ) == 65535,
{
    if extent > 1 {
        let last = extent - 1;
        let relative = if coordinate - origin < 0 {
            0
        } else if coordinate - origin > last {
            last
        } else {
            coordinate - origin
        };
        lemma_scaled_part(relative, last);
    }
}

proof fn lemma_scaled_part(relative: int, last: int)
    by (nonlinear_arith)
    requires
        0 <= relative <= last,
        last > 0,
    ensures
        0 <= (relative * 65535 + last / 2) / last <= 65535,
        relative == 0 ==> (relative * 65535 + last / 2) / last == 0,
        relative == last ==> (relative * 65535 + last / 2) / last == 65535,
{
}

/// Where a coordinate lies on a scale from 0 to 65535 over an extent, rounded to the nearest.
pub fn normalize_absolute_coordinate(coordinate: i32, origin: i32, extent: i32) -> (r: i32)
    ensures
        r == on_absolute_scale(coordinate as int, origin as int, extent as int),
{
    if extent <= 1 {
        return 0;
    }
    let last: i64 = extent as i64 - 1;
    let distance: i64 = coordinate as i64 - origin as i64;
    let relative: i64 = if distance < 0 {
        0
    } else if distance > last {
        last
    } else {
        distance
    };
    proof {
        lemma_scaled_part(relative as int, last as int);
    }
    ((relative * 65535 + last / 2) / last) as i32
}

/// Every key of this platform that a mapping can name has a scan code.
pub proof fn named_keys_have_scan_codes(usage: u16)
    requires
        mapping::has_key(mapping::InputPlatform::Windows, usage),
    ensures
        scan_of_usage(usage) is Some,
{
}

/// The virtual key of a button.
pub fn button_virtual_key(button: u8) -> (r: Option<i32>)
    ensures
        r == match button {
            1 => Some(0x01i32),
            2 => Some(0x04i32),
            3 => Some(0x02i32),
            4 => Some(0x05i32),
            5 => Some(0x06i32),
            _ => None,
        },
{
    match button {
        1 => Some(0x01),
        2 => Some(0x04),
        3 => Some(0x02),
        4 => Some(0x05),
        5 => Some(0x06),
        _ => None,
    }
}

/// Letters, digits and function keys have their virtual keys in their own order, one after the
/// other: letters from 0x41, digits from 0x30 with the zero in front, function keys from 0x70.
pub proof fn virtual_keys_follow_each_other(vk: u16)
    ensures
        0x41 <= vk <= 0x5a ==> usage_of_virtual_key(vk) == vk - 0x41 + 0x04,
        0x31 <= vk <= 0x39 ==> usage_of_virtual_key(vk) == vk - 0x31 + 0x1e,
        vk == 0x30 ==> usage_of_virtual_key(vk) == usage_of_virtual_key(0x39) + 1,
        0x70 <= vk <= 0x7b ==> usage_of_virtual_key(vk) == vk - 0x70 + 0x3a,
{
}

/// The usages of the letters, row by row from the upper left.
pub open spec fn letter_rows() -> Seq<Seq<u16>> {
    seq![
        seq![
            0x14u16,
            0x1au16,
            0x08u16,
            0x15u16,
            0x17u16,
            0x1cu16,
            0x18u16,
            0x0cu16,
            0x12u16,
            0x13u16,
        ],
        seq![
            0x04u16,
            0x16u16,
            0x07u16,
            0x09u16,
            0x0au16,
            0x0bu16,
            0x0du16,
            0x0eu16,
            0x0fu16,
        ],
        seq![0x1du16, 0x1bu16, 0x06u16, 0x19u16, 0x05u16, 0x11u16, 0x10u16],
    ]
}

/// Scan codes go along the rows of the keyboard: the digits, the first ten function keys and each
/// row of letters have theirs one after the other.
pub proof fn scan_codes_go_along_the_rows(usage: u16, row: int, column: int)
    requires
        0 <= row < 3,
        0 <= column < letter_rows()[row].len(),
    ensures
        0x1e <= usage <= 0x27 ==> scan_of_usage(usage) == Some(((usage - 0x1e + 0x02) as u16, false)),
        0x3a <= usage <= 0x43 ==> scan_of_usage(usage) == Some(((usage - 0x3a + 0x3b) as u16, false)),
        scan_of_usage(letter_rows()[row][column]) == Some(
            ((0x10 + 0x0e * row + column) as u16, false),
        ),
{
}

/// A key that was injected is the one that its event is read as, by the virtual key or, where it
/// has none, by the scan code.
pub proof fn injected_keys_are_read_back(usage: u16, down: bool, scan: u16, flags: u32, vk: u16)
    requires
        key_event(usage, down) == Some((scan, flags)),
        match virtual_key_of_usage(usage) {
            Some(own) => vk == own,
            None => usage_of_virtual_key(vk) == 0 && usage != 0xe4 && usage != 0xe6,
        },
    ensures
        usage_of_event(scan, vk) == Some(usage),
{
    lemma_found_is_first(usage);
    if let Some(own) = virtual_key_of_usage(usage) {
        virtual_keys_round_trip(own, usage);
    } else {
        scan_codes_round_trip(usage);
    }
}

/// The event that releases a key is the one that presses it but for the flag of a release. Both
/// go by the scan code.
pub proof fn releases_differ_by_one_flag(usage: u16)
    ensures
        key_event(usage, true) is Some <==> key_event(usage, false) is Some,
        key_event(usage, true) matches Some(press) ==> {
            let release = key_event(usage, false)->0;
            &&& release.0 == press.0
            &&& release.1 == press.1 + 2
            &&& press.1 == 8 || press.1 == 9
            &&& press.1 == 9 <==> (scan_of_usage(usage)->0).1
        },
{
}

/// The wheel counts in whole notches, each of 120: what it counts is no more than the amount,
/// less by no whole notch, and of the same direction.
pub proof fn notches_are_whole(data: u32)
    ensures
        ({
            let amount = wheel_amount(data);
            let notches = cut_quotient(amount, 120);
            &&& -0x8000 <= amount < 0x8000
            &&& (amount - data as int / 0x1_0000) % 0x1_0000 == 0
            &&& amount >= 0 ==> 0 <= notches * 120 <= amount < notches * 120 + 120
            &&& amount <= 0 ==> notches * 120 - 120 < amount <= notches * 120 <= 0
        }),
{
}

/// A wheel that is turned by some notches is one that its event is read as, in both directions.
pub proof fn turned_notches_are_read_back(notches: i32, data: u32)
    requires
        -273 <= notches <= 273,
        data as int / 0x1_0000 == wheel_data(notches) as int % 0x1_0000,
    ensures
        cut_quotient(wheel_amount(data), 120) == notches,
        platform::coordinate_of_raw(wheel_data(notches) as int) == notches * 120,
{
}

/// The two buttons beside the usual ones are told apart, and each is read as what it was injected
/// as.
pub proof fn extra_buttons_are_read_back(button: u8, down: bool, flags: u32, data: u32, read: u32)
    requires
        button_event(button, down) == Some((flags, data)),
        read / 0x1_0000 == data,
    ensures
        button == 4 || button == 5 ==> extra_button(read) == button,
        data != 0 <==> button == 4 || button == 5,
{
}

/// The five buttons have events, each its own for its press and its release; others have none.
pub proof fn buttons_have_events_of_their_own(first: u8, second: u8, down: bool, up: bool)
    ensures
        button_event(first, down) is Some <==> 1 <= first <= 5,
        button_event(first, down) is Some && button_event(first, down) == button_event(second, up)
            ==> first == second && down == up,
{
}

/// A coordinate inside its extent lies on the scale where its share of the extent does, but for
/// half a step, and farther coordinates lie no lower.
pub proof fn absolute_scale_is_even(coordinate: int, other: int, origin: int, extent: int)
    requires
        extent > 1,
        origin <= coordinate <= other <= origin + extent - 1,
    ensures
        ({
            let last = extent - 1;
            let at = on_absolute_scale(coordinate, origin, extent);
            let share = (coordinate - origin) * 65535;
            &&& -last <= 2 * (at * last - share) <= last
            &&& at <= on_absolute_scale(other, origin, extent)
        }),
{
    let last = extent - 1;
    lemma_nearest_part((coordinate - origin) * 65535, last);
    vstd::arithmetic::div_mod::lemma_div_is_ordered(
        (coordinate - origin) * 65535 + last / 2,
        (other - origin) * 65535 + last / 2,
        last,
    );
}

proof fn lemma_nearest_part(share: int, last: int)
    requires
        last > 0,
    ensures
        -last <= 2 * (((share + last / 2) / last) * last - share) <= last,
{
    let sum = share + last / 2;
    let q = sum / last;
    vstd::arithmetic::div_mod::lemma_fundamental_div_mod(sum, last);
    assert(last * q == q * last) by (nonlinear_arith);
    vstd::arithmetic::div_mod::lemma_mod_bound(sum, last);
    assert(0 <= sum - q * last < last);
}

/// A mark in the upper three bytes tells touch from a wheel, whatever the lowest byte is.
pub proof fn touch_is_told_by_its_mark(extra_info: usize, other: usize)
    requires
        extra_info as int / 0x100 == other as int / 0x100,
    ensures
        source_of_extra_info(extra_info) == source_of_extra_info(other),
        extra_info as int / 0x100 == 0xff_5157 <==> source_of_extra_info(extra_info) is Trackpad
            && extra_info as int <= 0xffff_ffff,
        source_of_extra_info(extra_info) is Trackpad || source_of_extra_info(extra_info)
            is MouseWheel,
{
}

} // verus!
