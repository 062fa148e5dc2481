use crate::opcodes::{Opcode, OP_PUSHDATA1, OP_PUSHDATA2, OP_PUSHDATA4, OP_PUSHNUM_1, OP_PUSHNUM_16, OP_PUSHNUM_NEG1};
use crate::push_bytes::PushBytes;
use vstd::prelude::*;

verus! {

/// `256` to the power `n`.
pub open spec fn pow256(n: nat) -> nat
    decreases n,
{
    if n == 0 { 1 } else { 256 * pow256((n - 1) as nat) }
}

/// The unsigned little-endian number of the bytes of `s`.
pub open spec fn le_value(s: Seq<u8>) -> nat
    decreases s.len(),
{
    if s.len() == 0 {
        0
    } else {
        le_value(s.drop_last()) + s.last() as nat * pow256((s.len() - 1) as nat)
    }
}

/// The script number of a non-empty push: little-endian magnitude with the
/// top bit of the last byte as the sign.
pub open spec fn spec_scriptint(v: Seq<u8>) -> int {
    if v.last() >= 0x80 {
        -(le_value(v) - 128 * pow256((v.len() - 1) as nat))
    } else {
        le_value(v) as int
    }
}

proof fn lemma_pow256_facts()
    ensures
        pow256(1) == 0x100,
        pow256(2) == 0x1_0000,
        pow256(3) == 0x100_0000,
        pow256(4) == 0x1_0000_0000,
        pow256(5) == 0x100_0000_0000,
        pow256(6) == 0x1_0000_0000_0000,
        pow256(7) == 0x100_0000_0000_0000,
        pow256(8) == 0x1_0000_0000_0000_0000,
{
    reveal_with_fuel(pow256, 9);
}

proof fn lemma_pow256_mono(a: nat, b: nat)
    requires
        a <= b,
    ensures
        1 <= pow256(a) <= pow256(b),
    decreases b - a,
{
    if a < b {
        lemma_pow256_mono(a, (b - 1) as nat);
    } else {
        lemma_pow256_pos(a);
    }
}

proof fn lemma_pow256_pos(a: nat)
    ensures
        1 <= pow256(a),
    decreases a,
{
    if a > 0 {
        lemma_pow256_pos((a - 1) as nat);
    }
}

/// The value of `n` little-endian bytes is below `256^n`.
proof fn lemma_le_value_bound(s: Seq<u8>)
    ensures
        le_value(s) < pow256(s.len()),
    decreases s.len(),
{
    if s.len() > 0 {
        let n = (s.len() - 1) as nat;
        lemma_le_value_bound(s.drop_last());
        let d = s.last() as nat;
        let p = pow256(n);
        assert(le_value(s) + 1 <= p * (d + 1)) by (nonlinear_arith)
            requires
                le_value(s) == le_value(s.drop_last()) + d * p,
                le_value(s.drop_last()) < p,
        ;
        assert(p * (d + 1) <= p * 256) by (nonlinear_arith)
            requires
                d < 256,
        ;
    }
}

fn scriptint_parse(v: &[u8]) -> (r: i64)
    requires
        1 <= v.len() <= 8,
        v.len() == 8 ==> v[7] < 0x80,
    ensures
        r == spec_scriptint(v@),
{
    let mut ret: i64 = 0;
    let mut mult: i64 = 1;
    let mut i: usize = 0;
    proof {
        lemma_pow256_facts();
    }
    while i < v.len()
        invariant
            1 <= v.len() <= 8,
            v.len() == 8 ==> v[7] < 0x80,
            i <= v.len(),
            ret == le_value(v@.take(i as int)),
            i < v.len() ==> mult == pow256(i as nat),
            i == v.len() ==> mult == pow256((i - 1) as nat),
            pow256(8) == 0x1_0000_0000_0000_0000,
            pow256(7) == 0x100_0000_0000_0000,
        decreases v.len() - i,
    {
        let byte = v[i];
        proof {
            lemma_le_value_bound(v@.take(i as int));
            assert(v@.take(i + 1).drop_last() =~= v@.take(i as int));
            lemma_pow256_mono(i as nat, 7);
            let p = pow256(i as nat);
            if i < 7 {
                lemma_pow256_mono(i as nat + 1, 7);
                assert(p * 256 == pow256(i as nat + 1));
                assert(ret + byte * p < p * 256) by (nonlinear_arith)
                    requires
                        ret < p,
                        byte < 256,
                ;
            } else {
                assert(ret + byte * p < p * 128) by (nonlinear_arith)
                    requires
                        ret < p,
                        byte < 0x80,
                ;
            }
        }
        ret = ret + (byte as i64) * mult;
        if i + 1 < v.len() {
            proof {
                lemma_pow256_mono(i as nat + 1, 7);
            }
            mult = mult * 256;
        }
        i = i + 1;
    }
    assert(v@.take(v.len() as int) =~= v@);
    let last = v[v.len() - 1];
    if last & 0x80 != 0 {
        assert(last & 0x80 != 0 ==> last >= 0x80) by (bit_vector);
        proof {
            let n = (v.len() - 1) as nat;
            assert(v@.drop_last() =~= v@.take(n as int));
            lemma_le_value_bound(v@.drop_last());
            lemma_pow256_mono(n, 6);
            assert(mult == pow256(n));
            assert(le_value(v@) >= 128 * pow256(n)) by (nonlinear_arith)
                requires
                    le_value(v@) == le_value(v@.drop_last()) + last * pow256(n),
                    last >= 0x80,
                    le_value(v@.drop_last()) >= 0,
            ;
        }
        ret = ret - 128 * mult;
        ret = -ret;
    } else {
        assert(last & 0x80 == 0 ==> last < 0x80) by (bit_vector);
    }
    ret
}

/// The script number of a push of at most four bytes, zero for an empty
/// push, without requiring the shortest encoding.
pub open spec fn spec_read_scriptint(v: Seq<u8>) -> Result<i64, Error> {
    if v.len() == 0 {
        Ok(0)
    } else if v.len() > 4 {
        Err(Error::NumericOverflow)
    } else {
        Ok(spec_scriptint(v) as i64)
    }
}

fn read_scriptint_non_minimal(v: &[u8]) -> (r: Result<i64, Error>)
    ensures
        r == spec_read_scriptint(v@),
{
    if v.len() == 0 {
        return Ok(0);
    }
    if v.len() > 4 {
        return Err(Error::NumericOverflow);
    }
    Ok(scriptint_parse(v))
}

/// The length of a push of `len` bytes in a script: the bytes and the
/// opcode, with the length prefix that pushes of this size need.
pub open spec fn spec_reserved_len(len: int) -> int {
    len + if len <= 0x4b {
        1int
    } else if len <= 0xff {
        2int
    } else if len <= 0xffff {
        3int
    } else {
        5int
    }
}

fn reserved_len_for_slice(len: usize) -> (r: usize)
    requires
        spec_reserved_len(len as int) <= usize::MAX,
    ensures
        r == spec_reserved_len(len as int),
{
    len + if len <= 0x4b {
        1
    } else if len <= 0xff {
        2
    } else if len <= 0xffff {
        3
    } else {
        5
    }
}

enum UintError {
    EarlyEndOfScript,
    NumericOverflow,
}

/// Why an instruction could not be read.
#[derive(Debug, PartialEq, Eq, Structural, Copy, Clone)]
pub enum Error {
    /// The script ended in the middle of an instruction.
    EarlyEndOfScript,
    /// A number does not fit.
    NumericOverflow,
    /// A push does not use the shortest encoding.
    NonMinimalPush,
}

impl From<UintError> for Error {
    fn from(error: UintError) -> (r: Self) {
        match error {
            UintError::EarlyEndOfScript => Error::EarlyEndOfScript,
            UintError::NumericOverflow => Error::NumericOverflow,
        }
    }
}

impl vstd::std_specs::convert::FromSpecImpl<UintError> for Error {
    open spec fn obeys_from_spec() -> bool {
        true
    }

    closed spec fn from_spec(error: UintError) -> Error {
        match error {
            UintError::EarlyEndOfScript => Error::EarlyEndOfScript,
            UintError::NumericOverflow => Error::NumericOverflow,
        }
    }
}

/// What `read_uint_iter` gives for `size` little-endian bytes at the front
/// of `data`: early end when there are fewer, overflow when the number
/// would need more bytes than a `usize` has.
spec fn spec_read_uint(data: Seq<u8>, size: nat) -> Result<nat, UintError> {
    if data.len() < size {
        Err(UintError::EarlyEndOfScript)
    } else if size > 0xffff_nat / 8 {
        Err(UintError::NumericOverflow)
    } else if size > 0 && (size - 1) * 8 >= usize::BITS {
        Err(UintError::NumericOverflow)
    } else {
        Ok(le_value(data.take(size as int)))
    }
}

fn read_uint_iter(data: &[u8], size: usize) -> (r: Result<usize, UintError>)
    ensures
        match (r, spec_read_uint(data@, size as nat)) {
            (Ok(n), Ok(m)) => n == m,
            (Err(UintError::EarlyEndOfScript), Err(UintError::EarlyEndOfScript)) => true,
            (Err(UintError::NumericOverflow), Err(UintError::NumericOverflow)) => true,
            _ => false,
        },
{
    if data.len() < size {
        return Err(UintError::EarlyEndOfScript);
    }
    if size > 0xffff / 8 {
        return Err(UintError::NumericOverflow);
    }
    let mut ret: usize = 0;
    let mut mult: usize = 1;
    let mut i: usize = 0;
    proof {
        lemma_pow256_facts();
        assert(usize::BITS == 32 || usize::BITS == 64);
    }
    while i < size
        invariant
            i <= size <= data.len(),
            size <= 0xffff_usize / 8,
            usize::BITS == 32 || usize::BITS == 64,
            usize::BITS == 32 ==> usize::MAX == 0xffff_ffff,
            usize::BITS == 64 ==> usize::MAX == 0xffff_ffff_ffff_ffff,
            pow256(4) == 0x1_0000_0000,
            pow256(8) == 0x1_0000_0000_0000_0000,
            ret == le_value(data@.take(i as int)),
            i * 8 < usize::BITS ==> mult == pow256(i as nat),
            i > 0 ==> (i - 1) * 8 < usize::BITS,
        decreases size - i,
    {
        if i * 8 >= usize::BITS as usize {
            return Err(UintError::NumericOverflow);
        }
        let byte = data[i];
        proof {
            lemma_le_value_bound(data@.take(i as int));
            assert(data@.take(i + 1).drop_last() =~= data@.take(i as int));
            let p = pow256(i as nat);
            let b: nat = if usize::BITS == 32 { 4 } else { 8 };
            lemma_pow256_mono(i as nat + 1, b);
            assert(p * 256 == pow256(i as nat + 1));
            assert(ret + byte * p < p * 256) by (nonlinear_arith)
                requires
                    ret < p,
                    byte < 256,
            ;
        }
        ret = ret + (byte as usize) * mult;
        if (i + 1) * 8 < usize::BITS as usize {
            proof {
                let b: nat = if usize::BITS == 32 { 3 } else { 7 };
                lemma_pow256_mono(i as nat + 1, b);
            }
            mult = mult * 256;
        }
        i = i + 1;
    }
    Ok(ret)
}

/// A parsed opcode: a data push, or any other opcode.
#[derive(Debug, PartialEq, Eq, Clone)]
pub enum Instruction {
    /// Push a bunch of data.
    PushBytes(PushBytes),
    /// Some non-push opcode.
    Op(Opcode),
}

/// An instruction, with the pushed bytes as a sequence and an opcode as its
/// byte.
pub enum InstructionModel {
    PushBytes(Seq<u8>),
    Op(u8),
}

impl View for Instruction {
    type V = InstructionModel;

    open spec fn view(&self) -> InstructionModel {
        match self {
            Instruction::PushBytes(p) => InstructionModel::PushBytes(p@),
            Instruction::Op(o) => InstructionModel::Op(o.spec_code()),
        }
    }
}

/// The number that a script interpreter reads from an instruction: the
/// small-number opcodes, and pushes of at most four bytes.
pub open spec fn spec_script_num(i: InstructionModel) -> Option<i64> {
    match i {
        InstructionModel::Op(v) => if OP_PUSHNUM_1 <= v <= OP_PUSHNUM_16 {
            Some((v - 0x50) as i64)
        } else if v == OP_PUSHNUM_NEG1 {
            Some(-1i64)
        } else {
            None
        },
        InstructionModel::PushBytes(bytes) => match spec_read_scriptint(bytes) {
            Ok(v) => Some(v),
            Err(_) => None,
        },
    }
}

impl Instruction {
    /// Returns the opcode if the instruction is not a data push.
    pub fn opcode(&self) -> (r: Option<Opcode>)
        ensures
            match self@ {
                InstructionModel::Op(b) => r matches Some(o) && o.spec_code() == b,
                InstructionModel::PushBytes(_) => r is None,
            },
    {
        match self {
            Instruction::Op(op) => Some(*op),
            Instruction::PushBytes(_) => None,
        }
    }

    /// Returns the pushed bytes if the instruction is a data push.
    pub fn push_bytes(&self) -> (r: Option<&PushBytes>)
        ensures
            match self@ {
                InstructionModel::Op(_) => r is None,
                InstructionModel::PushBytes(bytes) => r matches Some(p) && p@ == bytes,
            },
    {
        match self {
            Instruction::Op(_) => None,
            Instruction::PushBytes(bytes) => Some(bytes),
        }
    }

    /// Returns the number interpreted by the script parser if the
    /// instruction can be coerced into one; the number need not be minimal.
    pub fn script_num(&self) -> (r: Option<i64>)
        ensures
            r == spec_script_num(self@),
    {
        match self {
            Instruction::Op(op) => {
                let v = op.to_u8();
                if OP_PUSHNUM_1 <= v && v <= OP_PUSHNUM_16 {
                    Some(v as i64 - 0x50)
                } else if v == OP_PUSHNUM_NEG1 {
                    Some(-1)
                } else {
                    None
                }
            },
            Instruction::PushBytes(bytes) => match read_scriptint_non_minimal(bytes.as_bytes()) {
                Ok(v) => Some(v),
                Err(_) => None,
            },
        }
    }

    /// Returns the number of bytes required to encode the instruction in
    /// script.
    pub fn script_serialized_len(&self) -> (r: usize)
        requires
            self@ matches InstructionModel::PushBytes(bytes) ==> spec_reserved_len(bytes.len() as int) <= usize::MAX,
        ensures
            r == match self@ {
                InstructionModel::Op(_) => 1,
                InstructionModel::PushBytes(bytes) => spec_reserved_len(bytes.len() as int),
            },
    {
        match self {
            Instruction::Op(_) => 1,
            Instruction::PushBytes(bytes) => reserved_len_for_slice(bytes.len()),
        }
    }
}

/// The instruction and the bytes left after a push of `n` bytes from the
/// front of `rest`; a script too short for it is an early end, after which
/// nothing is left.
pub open spec fn spec_take_slice(rest: Seq<u8>, n: int) -> (Option<Result<InstructionModel, Error>>, Seq<u8>) {
    if rest.len() >= n {
        (Some(Ok(InstructionModel::PushBytes(rest.take(n)))), rest.skip(n))
    } else {
        (Some(Err(Error::EarlyEndOfScript)), Seq::empty())
    }
}

/// A push whose length comes in the `size` little-endian bytes at the front
/// of `rest`, the shortest encoding being required below `min_push_len`
/// when `enforce_minimal` holds.
pub open spec fn spec_push_data_len(rest: Seq<u8>, size: nat, min_push_len: nat, enforce_minimal: bool) -> (Option<Result<InstructionModel, Error>>, Seq<u8>) {
    if rest.len() < size {
        (Some(Err(Error::EarlyEndOfScript)), Seq::empty())
    } else if enforce_minimal && le_value(rest.take(size as int)) < min_push_len {
        (Some(Err(Error::NonMinimalPush)), Seq::empty())
    } else {
        spec_take_slice(rest.skip(size as int), le_value(rest.take(size as int)) as int)
    }
}

/// The next instruction of a script whose unread bytes are `rem`, and the
/// bytes left after it. Bytes up to `0x4b` push that many bytes,
/// `OP_PUSHDATA1`, `OP_PUSHDATA2` and `OP_PUSHDATA4` push as many bytes as
/// the one, two or four bytes after them say, and every other byte is an
/// opcode. After an error nothing is left.
pub open spec fn spec_next_instruction(rem: Seq<u8>, enforce_minimal: bool) -> (Option<Result<InstructionModel, Error>>, Seq<u8>) {
    if rem.len() == 0 {
        (None, rem)
    } else {
        let byte = rem[0];
        let rest = rem.drop_first();
        if byte <= 0x4b {
            if enforce_minimal && rest.len() > 0 && byte == 1 && (rest[0] == 0x81 || (rest[0] > 0 && rest[0] <= 16)) {
                (Some(Err(Error::NonMinimalPush)), Seq::empty())
            } else {
                spec_take_slice(rest, byte as int)
            }
        } else if byte == OP_PUSHDATA1 {
            spec_push_data_len(rest, 1, 76, enforce_minimal)
        } else if byte == OP_PUSHDATA2 {
            spec_push_data_len(rest, 2, 0x100, enforce_minimal)
        } else if byte == OP_PUSHDATA4 {
            spec_push_data_len(rest, 4, 0x10000, enforce_minimal)
        } else {
            (Some(Ok(InstructionModel::Op(byte))), rest)
        }
    }
}

/// A script with nothing left to read yields no further instruction, so a
/// killed iterator stays at its end.
pub proof fn lemma_exhausted_instructions_end(enforce_minimal: bool)
    ensures
        spec_next_instruction(Seq::empty(), enforce_minimal) == (None::<Result<InstructionModel, Error>>, Seq::<u8>::empty()),
{
}

/// The four little-endian bytes of `k`.
pub open spec fn le32(k: nat) -> Seq<u8> {
    seq![(k % 256) as u8, ((k / 0x100) % 256) as u8, ((k / 0x1_0000) % 256) as u8, ((k / 0x100_0000) % 256) as u8]
}

/// `OP_PUSHDATA4` followed by the length of `b` in four little-endian bytes
/// and then `b` pushes exactly `b` and leaves what follows it.
pub proof fn lemma_pushdata4(b: Seq<u8>, rest: Seq<u8>)
    requires
        b.len() < 0x1_0000_0000,
    ensures
        spec_next_instruction(seq![OP_PUSHDATA4] + le32(b.len()) + b + rest, false) == (Some(Ok::<InstructionModel, Error>(InstructionModel::PushBytes(b))), rest),
{
    let script = seq![OP_PUSHDATA4] + le32(b.len()) + b + rest;
    let after = script.drop_first();
    assert(after =~= le32(b.len()) + b + rest);
    let len = le32(b.len());
    assert(after.take(4) =~= len);
    assert(le_value(len) == b.len()) by {
        reveal_with_fuel(le_value, 5);
        lemma_pow256_facts();
        assert(len.drop_last().drop_last().drop_last().drop_last() =~= Seq::<u8>::empty());
        assert(len.drop_last().drop_last().drop_last() =~= seq![len[0]]);
        assert(len.drop_last().drop_last() =~= seq![len[0], len[1]]);
        assert(len.drop_last() =~= seq![len[0], len[1], len[2]]);
    }
    assert(after.skip(4) =~= b + rest);
    assert((b + rest).take(b.len() as int) =~= b);
    assert((b + rest).skip(b.len() as int) =~= rest);
}

/// `OP_PUSHDATA1` followed by the length of `b` in one byte and then `b`
/// pushes exactly `b` and leaves what follows it.
pub proof fn lemma_pushdata1(b: Seq<u8>, rest: Seq<u8>)
    requires
        b.len() < 0x100,
    ensures
        spec_next_instruction(seq![OP_PUSHDATA1, b.len() as u8] + b + rest, false) == (Some(Ok::<InstructionModel, Error>(InstructionModel::PushBytes(b))), rest),
{
    let script = seq![OP_PUSHDATA1, b.len() as u8] + b + rest;
    let after = script.drop_first();
    assert(after =~= seq![b.len() as u8] + b + rest);
    assert(after.take(1) =~= seq![b.len() as u8]);
    assert(le_value(seq![b.len() as u8]) == b.len()) by {
        reveal_with_fuel(le_value, 2);
        assert(seq![b.len() as u8].drop_last() =~= Seq::<u8>::empty());
    }
    assert(after.skip(1) =~= b + rest);
    assert((b + rest).take(b.len() as int) =~= b);
    assert((b + rest).skip(b.len() as int) =~= rest);
}

/// An instruction result, with the instruction by its model.
pub open spec fn result_model(r: Option<Result<Instruction, Error>>) -> Option<Result<InstructionModel, Error>> {
    match r {
        None => None,
        Some(Ok(i)) => Some(Ok(i@)),
        Some(Err(e)) => Some(Err(e)),
    }
}

/// Allowed length of push data length.
pub enum PushDataLenLen {
    One,
    Two,
    Four,
}

impl PushDataLenLen {
    /// The number of bytes of the length.
    pub open spec fn spec_size(self) -> nat {
        match self {
            PushDataLenLen::One => 1,
            PushDataLenLen::Two => 2,
            PushDataLenLen::Four => 4,
        }
    }

    /// The number of bytes of the length.
    pub fn size(&self) -> (r: usize)
        ensures
            r == self.spec_size(),
    {
        match self {
            PushDataLenLen::One => 1,
            PushDataLenLen::Two => 2,
            PushDataLenLen::Four => 4,
        }
    }
}

/// Iterator over a script returning parsed instructions.
#[derive(Debug)]
pub struct Instructions<'a> {
    data: &'a [u8],
    pos: usize,
    enforce_minimal: bool,
}

impl<'a> View for Instructions<'a> {
    type V = Seq<u8>;

    /// The bytes not read yet.
    closed spec fn view(&self) -> Seq<u8> {
        self.data@.skip(self.pos as int)
    }
}

impl<'a> Clone for Instructions<'a> {
    fn clone(&self) -> (r: Self)
        ensures
            r@ == self@,
            r.enforces_minimal() == self.enforces_minimal(),
    {
        proof {
            use_type_invariant(self);
        }
        Instructions { data: self.data, pos: self.pos, enforce_minimal: self.enforce_minimal }
    }
}

impl<'a> Instructions<'a> {
    #[verifier::type_invariant]
    spec fn inv(self) -> bool {
        self.pos <= self.data@.len()
    }

    /// Whether pushes must use the shortest encoding.
    pub closed spec fn enforces_minimal(self) -> bool {
        self.enforce_minimal
    }

    /// Iterates over the instructions of `data`.
    pub fn new(data: &'a [u8], enforce_minimal: bool) -> (r: Instructions<'a>)
        ensures
            r@ == data@,
            r.enforces_minimal() == enforce_minimal,
    {
        let r = Instructions { data, pos: 0, enforce_minimal };
        assert(data@.skip(0) =~= data@);
        r
    }

    /// Sets the iterator to end so that it won't iterate any longer.
    pub fn kill(&mut self)
        ensures
            final(self)@ == Seq::<u8>::empty(),
            final(self).enforces_minimal() == old(self).enforces_minimal(),
    {
        proof {
            use_type_invariant(&*self);
        }
        self.pos = self.data.len();
        assert(self@ =~= Seq::<u8>::empty());
    }

    /// Takes a `len` bytes long slice from the iterator and returns it,
    /// advancing the iterator. If the iterator is not long enough,
    /// `Error::EarlyEndOfScript` is returned and the iterator is killed to
    /// avoid returning an infinite stream of errors.
    pub fn take_slice_or_kill(&mut self, len: u32) -> (r: Result<PushBytes, Error>)
        ensures
            (result_model(Some(match r {
                Ok(p) => Ok(Instruction::PushBytes(p)),
                Err(e) => Err(e),
            })), final(self)@) == spec_take_slice(old(self)@, len as int),
            final(self).enforces_minimal() == old(self).enforces_minimal(),
    {
        proof {
            use_type_invariant(&*self);
        }
        let len = len as usize;
        if self.data.len() - self.pos >= len {
            let slice = vstd::slice::slice_subrange(self.data, self.pos, self.pos + len);
            let ghost old_rem = self@;
            self.pos = self.pos + len;
            assert(slice@ =~= old_rem.take(len as int));
            assert(self@ =~= old_rem.skip(len as int));
            match PushBytes::from_slice(slice) {
                Ok(p) => Ok(p),
                Err(_) => Err(Error::NumericOverflow),
            }
        } else {
            self.kill();
            Err(Error::EarlyEndOfScript)
        }
    }

    /// Reads a push whose length comes in the next `len` bytes.
    pub fn next_push_data_len(&mut self, len: PushDataLenLen, min_push_len: usize) -> (r: Option<Result<Instruction, Error>>)
        ensures
            (result_model(r), final(self)@) == spec_push_data_len(old(self)@, len.spec_size(), min_push_len as nat, old(self).enforces_minimal()),
            final(self).enforces_minimal() == old(self).enforces_minimal(),
    {
        proof {
            use_type_invariant(&*self);
        }
        let size = len.size();
        let rest = vstd::slice::slice_subrange(self.data, self.pos, self.data.len());
        assert(rest@ =~= self@);
        let n = match read_uint_iter(rest, size) {
            Ok(n) => n,
            Err(_) => {
                self.kill();
                return Some(Err(Error::EarlyEndOfScript));
            },
        };
        let ghost old_rem = self@;
        self.pos = self.pos + size;
        assert(self@ =~= old_rem.skip(size as int));
        if self.enforce_minimal && n < min_push_len {
            self.kill();
            return Some(Err(Error::NonMinimalPush));
        }
        proof {
            lemma_le_value_bound(old_rem.take(size as int));
            lemma_pow256_facts();
        }
        let result = match self.take_slice_or_kill(n as u32) {
            Ok(p) => Ok(Instruction::PushBytes(p)),
            Err(e) => Err(e),
        };
        Some(result)
    }

    /// The next instruction, or `None` at the end of the script.
    pub fn next(&mut self) -> (r: Option<Result<Instruction, Error>>)
        ensures
            (result_model(r), final(self)@) == spec_next_instruction(old(self)@, old(self).enforces_minimal()),
            final(self).enforces_minimal() == old(self).enforces_minimal(),
    {
        proof {
            use_type_invariant(&*self);
        }
        if self.pos >= self.data.len() {
            return None;
        }
        let ghost old_rem = self@;
        let byte = self.data[self.pos];
        self.pos = self.pos + 1;
        assert(self@ =~= old_rem.drop_first());
        if byte <= 0x4b {
            let n = byte as u32;
            let op_byte = if self.pos < self.data.len() {
                Some(self.data[self.pos])
            } else {
                None
            };
            match op_byte {
                Some(op_byte) => {
                    if self.enforce_minimal && n == 1 && (op_byte == 0x81 || (op_byte > 0 && op_byte <= 16)) {
                        self.kill();
                        return Some(Err(Error::NonMinimalPush));
                    }
                },
                None => {
                    if n == 0 {
                        assert(self@.skip(0) =~= self@);
                        assert(self@.take(0) =~= Seq::<u8>::empty());
                        return Some(Ok(Instruction::PushBytes(PushBytes::empty())));
                    }
                },
            }
            Some(match self.take_slice_or_kill(n) {
                Ok(p) => Ok(Instruction::PushBytes(p)),
                Err(e) => Err(e),
            })
        } else if byte == OP_PUSHDATA1 {
            self.next_push_data_len(PushDataLenLen::One, 76)
        } else if byte == OP_PUSHDATA2 {
            self.next_push_data_len(PushDataLenLen::Two, 0x100)
        } else if byte == OP_PUSHDATA4 {
            self.next_push_data_len(PushDataLenLen::Four, 0x10000)
        } else {
            Some(Ok(Instruction::Op(Opcode::from_u8(byte))))
        }
    }
}

} // verus!
