//! AMF0 type markers: the first byte of each encoded value.

use vstd::prelude::*;

verus! {

pub const NUMBER: u8 = 0x00;

pub const BOOLEAN: u8 = 0x01;

pub const STRING: u8 = 0x02;

pub const OBJECT: u8 = 0x03;

pub const MOVIECLIP: u8 = 0x04;

pub const NULL: u8 = 0x05;

pub const UNDEFINED: u8 = 0x06;

pub const REFERENCE: u8 = 0x07;

pub const ECMA_ARRAY: u8 = 0x08;

pub const OBJECT_END: u8 = 0x09;

pub const STRICT_ARRAY: u8 = 0x0A;

pub const DATE: u8 = 0x0B;

pub const LONG_STRING: u8 = 0x0C;

pub const UNSUPPORTED: u8 = 0x0D;

pub const RECORDSET: u8 = 0x0E;

pub const XML_DOCUMENT: u8 = 0x0F;

pub const TYPED_OBJECT: u8 = 0x10;

pub const AVMPLUS_OBJECT: u8 = 0x11;

} // verus!
