use vstd::prelude::*;

verus! {

/// Why a LEB128 integer could not be decoded.
#[derive(PartialEq, Eq, Structural, Debug, Clone, Copy)]
pub enum Error {
    /// More than nineteen bytes would be needed.
    Overlong,
    /// The value does not fit in a `u128`.
    Overflow,
    /// The buffer ended before a byte without the continuation bit.
    Unterminated,
}

/// `128` to the power `n`.
pub open spec fn pow128(n: nat) -> nat
    decreases n,
{
    if n == 0 { 1 } else { 128 * pow128((n - 1) as nat) }
}

/// The number whose little-endian base-128 digits are the low seven bits of
/// the bytes of `s`.
pub open spec fn leb128_value(s: Seq<u8>) -> nat
    decreases s.len(),
{
    if s.len() == 0 {
        0
    } else {
        leb128_value(s.drop_last()) + (s.last() % 128) as nat * pow128((s.len() - 1) as nat)
    }
}

/// The result of decoding `buffer` from byte `i` on, with the bytes before
/// `i` all carrying the continuation bit.
pub open spec fn decode_from(buffer: Seq<u8>, i: nat) -> Result<(u128, usize), Error>
    decreases buffer.len() - i,
{
    if i >= buffer.len() {
        Err(Error::Unterminated)
    } else if i > 18 {
        Err(Error::Overlong)
    } else if i == 18 && buffer[18 as int] % 128 >= 4 {
        Err(Error::Overflow)
    } else if buffer[i as int] < 128 {
        Ok((leb128_value(buffer.take(i as int + 1)) as u128, (i + 1) as usize))
    } else {
        decode_from(buffer, i + 1)
    }
}

/// What `decode` returns for `buffer`.
pub open spec fn spec_decode(buffer: Seq<u8>) -> Result<(u128, usize), Error> {
    decode_from(buffer, 0)
}

proof fn lemma_pow128_pos(n: nat)
    ensures
        pow128(n) >= 1,
    decreases n,
{
    if n > 0 {
        lemma_pow128_pos((n - 1) as nat);
    }
}

/// The value of `i` base-128 digits is below `128^i`.
proof fn lemma_leb128_bound(s: Seq<u8>)
    ensures
        leb128_value(s) < pow128(s.len()),
    decreases s.len(),
{
    if s.len() > 0 {
        let n = (s.len() - 1) as nat;
        lemma_leb128_bound(s.drop_last());
        let d = (s.last() % 128) as nat;
        let p = pow128(n);
        assert(leb128_value(s.drop_last()) < p);
        assert(leb128_value(s) + 1 <= p * (d + 1)) by (nonlinear_arith)
            requires
                leb128_value(s) == leb128_value(s.drop_last()) + d * p,
                leb128_value(s.drop_last()) < p,
        ;
        assert(p * (d + 1) <= p * 128) by (nonlinear_arith)
            requires
                d < 128,
        ;
    }
}

/// Decodes one LEB128 integer from the front of `buffer`, returning it with
/// the number of bytes it took.
pub fn decode(buffer: &[u8]) -> (r: Result<(u128, usize), Error>)
    ensures
        r == spec_decode(buffer@),
{
    let mut n: u128 = 0;
    let mut i: usize = 0;
    let mut mult: u128 = 1;
    while i < buffer.len()
        invariant
            i <= buffer.len(),
            i <= 19,
            n as nat == leb128_value(buffer@.take(i as int)),
            i <= 18 ==> mult as nat == pow128(i as nat),
            decode_from(buffer@, 0) == decode_from(buffer@, i as nat),
        decreases buffer.len() - i,
    {
        let byte = buffer[i];
        if i > 18 {
            return Err(Error::Overlong);
        }
        let value: u8 = byte & 0b0111_1111;
        assert(value == byte % 128) by (bit_vector)
            requires
                value == byte & 0x7f,
        ;
        if i == 18 && value & 0b0111_1100 != 0 {
            assert(value & 0x7c != 0 ==> value >= 4) by (bit_vector);
            return Err(Error::Overflow);
        }
        assert(value < 128 && (value & 0x7c == 0 ==> value < 4)) by (bit_vector)
            requires
                value == byte & 0x7f,
        ;
        proof {
            lemma_leb128_bound(buffer@.take(i as int));
            lemma_pow128_18();
            assert(buffer@.take(i + 1).drop_last() =~= buffer@.take(i as int));
            let p = pow128(i as nat);
            if i < 18 {
                lemma_pow128_mono(i as nat, 17);
                assert(n + value * p < pow128(18)) by (nonlinear_arith)
                    requires
                        n < p,
                        value < 128,
                        p <= pow128(17),
                        pow128(17) * 128 == pow128(18),
                ;
            } else {
                assert(n + value * p < 4 * p) by (nonlinear_arith)
                    requires
                        n < p,
                        value < 4,
                ;
            }
        }
        n = n + (value as u128) * mult;
        if byte & 0b1000_0000 == 0 {
            assert(byte & 0x80 == 0 <==> byte < 128) by (bit_vector);
            return Ok((n, i + 1));
        }
        assert(byte & 0x80 != 0 ==> byte >= 128) by (bit_vector);
        if i < 18 {
            proof {
                lemma_pow128_mono(i as nat + 1, 18);
            }
            mult = mult * 128;
        }
        i = i + 1;
    }
    Err(Error::Unterminated)
}

/// `128^18` is `2^126`, one step above `128^17`.
proof fn lemma_pow128_18()
    ensures
        pow128(18) == 0x4000_0000_0000_0000_0000_0000_0000_0000,
        pow128(17) * 128 == pow128(18),
{
    reveal_with_fuel(pow128, 19);
}

/// A successful decode reads at least one byte and no more than the buffer
/// holds.
pub proof fn lemma_decode_length(buffer: Seq<u8>)
    ensures
        spec_decode(buffer) matches Ok((_, len)) ==> 1 <= len <= buffer.len(),
{
    lemma_decode_from_length(buffer, 0);
}

proof fn lemma_decode_from_length(buffer: Seq<u8>, i: nat)
    ensures
        decode_from(buffer, i) matches Ok((_, len)) ==> i + 1 <= len <= buffer.len(),
    decreases buffer.len() - i,
{
    if i < buffer.len() && i <= 18 && !(i == 18 && buffer[18 as int] % 128 >= 4) && buffer[i as int] >= 128 {
        lemma_decode_from_length(buffer, i + 1);
    }
}

/// Bytes after a complete integer do not change what is decoded.
pub proof fn lemma_decode_prefix(buffer: Seq<u8>, more: Seq<u8>)
    requires
        spec_decode(buffer) is Ok,
    ensures
        spec_decode(buffer + more) == spec_decode(buffer),
{
    lemma_decode_from_prefix(buffer, more, 0);
}

proof fn lemma_decode_from_prefix(buffer: Seq<u8>, more: Seq<u8>, i: nat)
    requires
        decode_from(buffer, i) is Ok,
    ensures
        decode_from(buffer + more, i) == decode_from(buffer, i),
    decreases buffer.len() - i,
{
    let whole = buffer + more;
    if i < buffer.len() {
        assert(whole[i as int] == buffer[i as int]);
        if i == 18 {
            assert(whole[18] == buffer[18]);
        }
        if buffer[i as int] < 128 {
            assert(whole.take(i as int + 1) =~= buffer.take(i as int + 1));
        } else if i <= 18 {
            lemma_decode_from_prefix(buffer, more, i + 1);
        }
    }
}

proof fn lemma_pow128_mono(a: nat, b: nat)
    requires
        a <= b,
    ensures
        pow128(a) <= pow128(b),
    decreases b - a,
{
    if a < b {
        lemma_pow128_mono(a, (b - 1) as nat);
        lemma_pow128_pos((b - 1) as nat);
    }
}

} // verus!
