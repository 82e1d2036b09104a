//! The bytecode format: opcodes, instruction sizes and operand decoding.
//! Operands are one signed byte or four little-endian bytes; relative
//! jumps are measured from the end of their operand.
use vstd::prelude::*;

verus! {

/// Decodes a little-endian unsigned 32-bit integer from four bytes.
pub open spec fn le_u32(b0: u8, b1: u8, b2: u8, b3: u8) -> int {
    b0 as int + 256 * (b1 as int) + 65536 * (b2 as int) + 16777216 * (b3 as int)
}

/// Reads the four-byte little-endian operand that starts at `at`.
pub fn read_u32(code: &Vec<u8>, at: usize) -> (r: u32)
    requires
        at + 4 <= code@.len(),
    ensures
        r as int == le_u32(code@[at as int], code@[at + 1], code@[at + 2], code@[at + 3]),
{
    let len = code.len();
    assert(at + 4 <= len);
    let b0 = code[at] as u32;
    let b1 = code[at + 1] as u32;
    let b2 = code[at + 2] as u32;
    let b3 = code[at + 3] as u32;
    b0 + 256 * b1 + 65536 * b2 + 16777216 * b3
}

pub const END: u8 = 0;
pub const CREATE_CONTEXT: u8 = 1;
pub const CONSTRUCT: u8 = 2;
pub const CREATE_OBJECT: u8 = 3;
pub const CREATE_ARRAY: u8 = 4;
pub const PUSH_INT8: u8 = 5;
pub const PUSH_INT32: u8 = 6;
pub const PUSH_FALSE: u8 = 7;
pub const PUSH_TRUE: u8 = 8;
pub const PUSH_CONST: u8 = 9;
pub const PUSH_THIS: u8 = 10;
pub const PUSH_ARGUMENTS: u8 = 11;
pub const PUSH_UNDEFINED: u8 = 12;
pub const LNOT: u8 = 13;
pub const POSI: u8 = 14;
pub const NEG: u8 = 15;
pub const ADD: u8 = 16;
pub const SUB: u8 = 17;
pub const MUL: u8 = 18;
pub const DIV: u8 = 19;
pub const REM: u8 = 20;
pub const LT: u8 = 21;
pub const GT: u8 = 22;
pub const LE: u8 = 23;
pub const GE: u8 = 24;
pub const EQ: u8 = 25;
pub const NE: u8 = 26;
pub const SEQ: u8 = 27;
pub const SNE: u8 = 28;
pub const AND: u8 = 29;
pub const OR: u8 = 30;
pub const XOR: u8 = 31;
pub const SHL: u8 = 32;
pub const SHR: u8 = 33;
pub const ZFSHR: u8 = 34;
pub const GET_MEMBER: u8 = 35;
pub const SET_MEMBER: u8 = 36;
pub const JMP_IF_FALSE: u8 = 37;
pub const JMP: u8 = 38;
pub const CALL: u8 = 39;
pub const RETURN: u8 = 40;
pub const DOUBLE: u8 = 41;
pub const POP: u8 = 42;
pub const LAND: u8 = 43;
pub const LOR: u8 = 44;
pub const SET_CUR_CALLOBJ: u8 = 45;
pub const GET_NAME: u8 = 46;
pub const SET_NAME: u8 = 47;
pub const DECL_VAR: u8 = 48;
pub const COND_OP: u8 = 49;
pub const LOOP_START: u8 = 50;

/// The number of opcodes; bytes from here on are not instructions.
pub const NUM_OPCODES: u8 = 51;

/// The encoded size of an instruction: its opcode byte and its operand.
pub open spec fn inst_size_spec(op: u8) -> Option<nat> {
    if op >= NUM_OPCODES {
        None
    } else if op == PUSH_INT8 {
        Some(2)
    } else if op == CALL || op == CONSTRUCT || op == CREATE_ARRAY || op == CREATE_OBJECT || op == DECL_VAR || op == GET_NAME || op == JMP || op == JMP_IF_FALSE || op == LOOP_START || op == PUSH_CONST || op == PUSH_INT32 || op == SET_NAME {
        Some(5)
    } else {
        Some(1)
    }
}

pub fn inst_size(op: u8) -> (r: Option<usize>)
    ensures
        r matches Some(n) ==> inst_size_spec(op) == Some(n as nat),
        r is None ==> inst_size_spec(op) is None,
{
    if op >= NUM_OPCODES {
        None
    } else if op == PUSH_INT8 {
        Some(2)
    } else if op == CALL || op == CONSTRUCT || op == CREATE_ARRAY || op == CREATE_OBJECT || op == DECL_VAR || op == GET_NAME || op == JMP || op == JMP_IF_FALSE || op == LOOP_START || op == PUSH_CONST || op == PUSH_INT32 || op == SET_NAME {
        Some(5)
    } else {
        Some(1)
    }
}

/// The signed 32-bit operand that starts at `at`.
pub fn read_i32(code: &Vec<u8>, at: usize) -> (r: i32)
    requires
        at + 4 <= code@.len(),
    ensures
        r as int == if le_u32(code@[at as int], code@[at + 1], code@[at + 2], code@[at + 3]) < 0x8000_0000 {
            le_u32(code@[at as int], code@[at + 1], code@[at + 2], code@[at + 3])
        } else {
            le_u32(code@[at as int], code@[at + 1], code@[at + 2], code@[at + 3]) - 0x1_0000_0000
        },
{
    let u = read_u32(code, at);
    if u < 0x8000_0000 {
        u as i32
    } else {
        (u as i64 - 0x1_0000_0000i64) as i32
    }
}

/// The signed 8-bit operand at `at`.
pub fn read_i8(code: &Vec<u8>, at: usize) -> (r: i8)
    requires
        at < code@.len(),
    ensures
        r as int == if code@[at as int] < 128 {
            code@[at as int] as int
        } else {
            code@[at as int] - 256
        },
{
    let b = code[at];
    if b < 128 {
        b as i8
    } else {
        (b as i16 - 256) as i8
    }
}

/// The target of a jump whose operand ends at `after`: `after + rel`, if
/// that is a position at all.
pub fn jump_target(after: usize, rel: i32) -> (r: Option<usize>)
    ensures
        r matches Some(t) ==> t == after + rel,
        r is None ==> after + rel < 0 || after + rel > usize::MAX,
{
    if rel >= 0 {
        after.checked_add(rel as usize)
    } else {
        let back: usize = if rel == i32::MIN {
            0x8000_0000
        } else {
            (-rel) as usize
        };
        if back <= after {
            Some(after - back)
        } else {
            None
        }
    }
}

} // verus!
