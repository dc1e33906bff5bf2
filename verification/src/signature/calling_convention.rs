//! Calling-convention byte constants (II.23.2.3).
use vstd::prelude::*;

verus! {

/// The calling convention `DEFAULT`.
pub const DEFAULT: u8 = 0x00;

/// The calling convention `C`.
pub const C: u8 = 0x01;

/// The calling convention `STDCALL`.
pub const STDCALL: u8 = 0x02;

/// The calling convention `THISCALL`.
pub const THISCALL: u8 = 0x03;

/// The calling convention `FASTCALL`.
pub const FASTCALL: u8 = 0x04;

/// The calling convention `VARARG`.
pub const VARARG: u8 = 0x05;

/// The calling convention `FIELD`.
pub const FIELD: u8 = 0x06;

/// The calling convention `LOCAL_SIG`.
pub const LOCAL_SIG: u8 = 0x07;

/// The calling convention `PROPERTY`.
pub const PROPERTY: u8 = 0x08;

/// The calling convention `UNMANAGED`.
pub const UNMANAGED: u8 = 0x09;

/// The calling convention `GENERICINST`.
pub const GENERICINST: u8 = 0x0A;

/// The calling convention `NATIVEVARARG`.
pub const NATIVEVARARG: u8 = 0x0B;

/// The bits that hold the convention itself.
pub const MASK: u8 = 0x0F;

/// The flag of a generic method.
pub const GENERIC: u8 = 0x10;

/// The flag of an instance method.
pub const HASTHIS: u8 = 0x20;

/// The flag of an explicit `this` parameter.
pub const EXPLICITTHIS: u8 = 0x40;

} // verus!
