//! `ELEMENT_TYPE_*` constants (II.23.1.16).
use vstd::prelude::*;

verus! {

/// The element type `END`.
pub const END: u8 = 0x00;

/// The element type `VOID`.
pub const VOID: u8 = 0x01;

/// The element type `BOOLEAN`.
pub const BOOLEAN: u8 = 0x02;

/// The element type `CHAR`.
pub const CHAR: u8 = 0x03;

/// The element type `I1`.
pub const I1: u8 = 0x04;

/// The element type `U1`.
pub const U1: u8 = 0x05;

/// The element type `I2`.
pub const I2: u8 = 0x06;

/// The element type `U2`.
pub const U2: u8 = 0x07;

/// The element type `I4`.
pub const I4: u8 = 0x08;

/// The element type `U4`.
pub const U4: u8 = 0x09;

/// The element type `I8`.
pub const I8: u8 = 0x0A;

/// The element type `U8`.
pub const U8: u8 = 0x0B;

/// The element type `R4`.
pub const R4: u8 = 0x0C;

/// The element type `R8`.
pub const R8: u8 = 0x0D;

/// The element type `STRING`.
pub const STRING: u8 = 0x0E;

/// The element type `PTR`.
pub const PTR: u8 = 0x0F;

/// The element type `BYREF`.
pub const BYREF: u8 = 0x10;

/// The element type `VALUETYPE`.
pub const VALUETYPE: u8 = 0x11;

/// The element type `CLASS`.
pub const CLASS: u8 = 0x12;

/// The element type `VAR`.
pub const VAR: u8 = 0x13;

/// The element type `ARRAY`.
pub const ARRAY: u8 = 0x14;

/// The element type `GENERICINST`.
pub const GENERICINST: u8 = 0x15;

/// The element type `TYPEDBYREF`.
pub const TYPEDBYREF: u8 = 0x16;

/// The element type `I`.
pub const I: u8 = 0x18;

/// The element type `U`.
pub const U: u8 = 0x19;

/// The element type `FNPTR`.
pub const FNPTR: u8 = 0x1B;

/// The element type `OBJECT`.
pub const OBJECT: u8 = 0x1C;

/// The element type `SZARRAY`.
pub const SZARRAY: u8 = 0x1D;

/// The element type `MVAR`.
pub const MVAR: u8 = 0x1E;

/// The element type `CMOD_REQD`.
pub const CMOD_REQD: u8 = 0x1F;

/// The element type `CMOD_OPT`.
pub const CMOD_OPT: u8 = 0x20;

/// The element type `INTERNAL`.
pub const INTERNAL: u8 = 0x21;

/// The flag of a modifier.
pub const MODIFIER: u8 = 0x40;

/// The element type `SENTINEL`.
pub const SENTINEL: u8 = 0x41;

/// The element type `PINNED`.
pub const PINNED: u8 = 0x45;

} // verus!
