use vstd::prelude::*;

verus! {

/// `OP_PUSHDATA1`: the next byte is the length of the push.
pub const OP_PUSHDATA1: u8 = 0x4c;
/// `OP_PUSHDATA2`: the next two bytes are the length of the push.
pub const OP_PUSHDATA2: u8 = 0x4d;
/// `OP_PUSHDATA4`: the next four bytes are the length of the push.
pub const OP_PUSHDATA4: u8 = 0x4e;
/// `OP_PUSHNUM_NEG1`: pushes -1.
pub const OP_PUSHNUM_NEG1: u8 = 0x4f;
/// `OP_PUSHNUM_1`: pushes 1.
pub const OP_PUSHNUM_1: u8 = 0x51;
/// `OP_PUSHNUM_13`: pushes 13.
pub const OP_PUSHNUM_13: u8 = 0x5d;
/// `OP_PUSHNUM_16`: pushes 16.
pub const OP_PUSHNUM_16: u8 = 0x60;
/// `OP_RETURN`: marks an output as unspendable.
pub const OP_RETURN: u8 = 0x6a;

/// A script opcode.
#[derive(Debug, PartialEq, Eq, Structural, Copy, Clone)]
pub struct Opcode {
    code: u8,
}

impl Opcode {
    /// The byte of the opcode.
    pub closed spec fn spec_code(self) -> u8 {
        self.code
    }

    /// The opcode of a byte.
    pub fn from_u8(code: u8) -> (r: Opcode)
        ensures
            r.spec_code() == code,
    {
        Opcode { code }
    }

    /// The byte of the opcode.
    pub fn to_u8(self) -> (r: u8)
        ensures
            r == self.spec_code(),
    {
        self.code
    }
}

} // verus!
