//! The op codes of the pickle format, protocols 0 to 5.

use vstd::prelude::*;

verus! {

pub const MARK: u8 = 0x28;
pub const STOP: u8 = 0x2e;
pub const POP: u8 = 0x30;
pub const POP_MARK: u8 = 0x31;
pub const DUP: u8 = 0x32;
pub const FLOAT: u8 = 0x46;
pub const INT: u8 = 0x49;
pub const BININT: u8 = 0x4a;
pub const BININT1: u8 = 0x4b;
pub const LONG: u8 = 0x4c;
pub const BININT2: u8 = 0x4d;
pub const NONE: u8 = 0x4e;
pub const PERSID: u8 = 0x50;
pub const BINPERSID: u8 = 0x51;
pub const REDUCE: u8 = 0x52;
pub const STRING: u8 = 0x53;
pub const BINSTRING: u8 = 0x54;
pub const SHORT_BINSTRING: u8 = 0x55;
pub const UNICODE: u8 = 0x56;
pub const BINUNICODE: u8 = 0x58;
pub const APPEND: u8 = 0x61;
pub const BUILD: u8 = 0x62;
pub const GLOBAL: u8 = 0x63;
pub const DICT: u8 = 0x64;
pub const EMPTY_DICT: u8 = 0x7d;
pub const APPENDS: u8 = 0x65;
pub const GET: u8 = 0x67;
pub const BINGET: u8 = 0x68;
pub const INST: u8 = 0x69;
pub const LONG_BINGET: u8 = 0x6a;
pub const LIST: u8 = 0x6c;
pub const EMPTY_LIST: u8 = 0x5d;
pub const OBJ: u8 = 0x6f;
pub const PUT: u8 = 0x70;
pub const BINPUT: u8 = 0x71;
pub const LONG_BINPUT: u8 = 0x72;
pub const SETITEM: u8 = 0x73;
pub const TUPLE: u8 = 0x74;
pub const EMPTY_TUPLE: u8 = 0x29;
pub const SETITEMS: u8 = 0x75;
pub const BINFLOAT: u8 = 0x47;
pub const PROTO: u8 = 0x80;
pub const NEWOBJ: u8 = 0x81;
pub const EXT1: u8 = 0x82;
pub const EXT2: u8 = 0x83;
pub const EXT4: u8 = 0x84;
pub const TUPLE1: u8 = 0x85;
pub const TUPLE2: u8 = 0x86;
pub const TUPLE3: u8 = 0x87;
pub const NEWTRUE: u8 = 0x88;
pub const NEWFALSE: u8 = 0x89;
pub const LONG1: u8 = 0x8a;
pub const LONG4: u8 = 0x8b;
pub const BINBYTES: u8 = 0x42;
pub const SHORT_BINBYTES: u8 = 0x43;
pub const SHORT_BINUNICODE: u8 = 0x8c;
pub const BINUNICODE8: u8 = 0x8d;
pub const BINBYTES8: u8 = 0x8e;
pub const EMPTY_SET: u8 = 0x8f;
pub const ADDITEMS: u8 = 0x90;
pub const FROZENSET: u8 = 0x91;
pub const NEWOBJ_EX: u8 = 0x92;
pub const STACK_GLOBAL: u8 = 0x93;
pub const MEMOIZE: u8 = 0x94;
pub const FRAME: u8 = 0x95;
pub const BYTEARRAY8: u8 = 0x96;
pub const NEXT_BUFFER: u8 = 0x97;
pub const READONLY_BUFFER: u8 = 0x98;

/// The newest protocol this reader understands.
pub const HIGHEST_PROTOCOL: u8 = 5;

} // verus!
