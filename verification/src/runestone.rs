use crate::artifact::{Artifact, ArtifactModel};
use crate::cenotaph::Cenotaph;
use crate::edict::Edict;
use crate::etching::{spec_supply, Etching};
use crate::fields::{fields_drain, fields_first, fields_have_even_tag, Fields};
use crate::flag::Flag;
use crate::flaw::Flaw;
use crate::message::{lemma_message_flaw, spec_message, Message};
use crate::opcodes::OP_PUSHNUM_13;
use crate::rune::Rune;
use crate::rune_id::{valid_rune_id, RuneId};
use crate::tag::{spec_take_at_most, spec_take_below, Tag};
use crate::terms::Terms;
use crate::varint;
use crate::varint::{lemma_decode_length, spec_decode};
use vstd::prelude::*;

verus! {

/// A well-formed runestone: the edicts, etching, mint and pointer of a
/// runes message.
#[derive(Debug, PartialEq, Eq, Default)]
pub struct Runestone {
    pub edicts: Vec<Edict>,
    pub etching: Option<Etching>,
    pub mint: Option<RuneId>,
    pub pointer: Option<u32>,
}

/// A runestone, with its edicts as a sequence.
pub struct RunestoneModel {
    pub edicts: Seq<Edict>,
    pub etching: Option<Etching>,
    pub mint: Option<RuneId>,
    pub pointer: Option<u32>,
}

impl View for Runestone {
    type V = RunestoneModel;

    open spec fn view(&self) -> RunestoneModel {
        RunestoneModel {
            edicts: self.edicts@,
            etching: self.etching,
            mint: self.mint,
            pointer: self.pointer,
        }
    }
}

type FieldMap = Map<u128, Seq<u128>>;

/// The integers that the payload encodes, one LEB128 integer after another.
pub open spec fn spec_integers(payload: Seq<u8>) -> Result<Seq<u128>, varint::Error>
    decreases payload.len(),
{
    if payload.len() == 0 {
        Ok(Seq::empty())
    } else {
        match spec_decode(payload) {
            Err(e) => Err(e),
            Ok((integer, length)) => {
                proof {
                    lemma_decode_length(payload);
                }
                match spec_integers(payload.skip(length as int)) {
                    Ok(rest) => Ok(seq![integer] + rest),
                    Err(e) => Err(e),
                }
            },
        }
    }
}

/// Whether `v` is a Unicode scalar value.
pub open spec fn is_scalar_value(v: int) -> bool {
    0 <= v <= 0x10FFFF && !(0xD800 <= v <= 0xDFFF)
}

/// The symbol field: taken when its first value is a Unicode scalar value.
pub open spec fn spec_take_symbol(m: FieldMap) -> (Option<char>, FieldMap) {
    match fields_first(m, Tag::Symbol.spec_value(), 1) {
        Some(s) => if is_scalar_value(s[0] as int) {
            (Some(s[0] as char), fields_drain(m, Tag::Symbol.spec_value(), 1))
        } else {
            (None, m)
        },
        None => (None, m),
    }
}

/// The mint field: taken when its first two values name a valid rune id.
pub open spec fn spec_take_mint(m: FieldMap) -> (Option<RuneId>, FieldMap) {
    match fields_first(m, Tag::Mint.spec_value(), 2) {
        Some(s) => if s[0] <= u64::MAX && s[1] <= u32::MAX && valid_rune_id(s[0] as int, s[1] as int) {
            (Some(RuneId { block: s[0] as u64, tx: s[1] as u32 }), fields_drain(m, Tag::Mint.spec_value(), 2))
        } else {
            (None, m)
        },
        None => (None, m),
    }
}

/// The terms of an etching whose terms flag is set.
pub open spec fn spec_terms(m: FieldMap) -> (Terms, FieldMap) {
    let (cap, m) = spec_take_at_most(m, Tag::Cap.spec_value(), u128::MAX as int);
    let (height_start, m) = spec_take_at_most(m, Tag::HeightStart.spec_value(), u64::MAX as int);
    let (height_end, m) = spec_take_at_most(m, Tag::HeightEnd.spec_value(), u64::MAX as int);
    let (amount, m) = spec_take_at_most(m, Tag::Amount.spec_value(), u128::MAX as int);
    let (offset_start, m) = spec_take_at_most(m, Tag::OffsetStart.spec_value(), u64::MAX as int);
    let (offset_end, m) = spec_take_at_most(m, Tag::OffsetEnd.spec_value(), u64::MAX as int);
    (
        Terms {
            cap,
            height: (narrow_u64(height_start), narrow_u64(height_end)),
            amount,
            offset: (narrow_u64(offset_start), narrow_u64(offset_end)),
        },
        m,
    )
}

/// A value known to fit in a `u64`, as one.
pub open spec fn narrow_u64(v: Option<u128>) -> Option<u64> {
    match v {
        Some(x) => Some(x as u64),
        None => None,
    }
}

/// The etching of a message whose etching flag is set, the flags left after
/// its flags are taken, and the fields left.
pub open spec fn spec_etching(flags: u128, m: FieldMap) -> (Etching, u128, FieldMap) {
    let (divisibility, m) = spec_take_at_most(m, Tag::Divisibility.spec_value(), Etching::MAX_DIVISIBILITY as int);
    let (premine, m) = spec_take_at_most(m, Tag::Premine.spec_value(), u128::MAX as int);
    let (rune, m) = spec_take_at_most(m, Tag::Rune.spec_value(), u128::MAX as int);
    let (spacers, m) = spec_take_at_most(m, Tag::Spacers.spec_value(), Etching::MAX_SPACERS as int);
    let (symbol, m) = spec_take_symbol(m);
    let terms_set = flags & Flag::Terms.spec_mask() != 0;
    let flags = flags & !Flag::Terms.spec_mask();
    let (terms, m) = if terms_set {
        let (t, m) = spec_terms(m);
        (Some(t), m)
    } else {
        (None, m)
    };
    let turbo = flags & Flag::Turbo.spec_mask() != 0;
    let flags = flags & !Flag::Turbo.spec_mask();
    (
        Etching {
            divisibility: match divisibility {
                Some(d) => Some(d as u8),
                None => None,
            },
            premine,
            rune: match rune {
                Some(r) => Some(Rune(r)),
                None => None,
            },
            spacers: match spacers {
                Some(s) => Some(s as u32),
                None => None,
            },
            symbol,
            terms,
            turbo,
        },
        flags,
        m,
    )
}

/// `flaw`, or `other` when there is no flaw yet and `cond` holds.
pub open spec fn or_flaw(flaw: Option<Flaw>, cond: bool, other: Flaw) -> Option<Flaw> {
    if flaw is Some {
        flaw
    } else if cond {
        Some(other)
    } else {
        None
    }
}

/// What the integers of a runestone payload decipher to.
pub open spec fn spec_decipher_integers(output_len: u32, integers: Seq<u128>) -> ArtifactModel {
    let (flaw, edicts, m) = spec_message(output_len, integers);
    let (flags, m) = spec_take_at_most(m, Tag::Flags.spec_value(), u128::MAX as int);
    let flags: u128 = match flags {
        Some(f) => f,
        None => 0,
    };
    let etching_set = flags & Flag::Etching.spec_mask() != 0;
    let flags = flags & !Flag::Etching.spec_mask();
    let (etching, flags, m) = if etching_set {
        let (e, flags, m) = spec_etching(flags, m);
        (Some(e), flags, m)
    } else {
        (None, flags, m)
    };
    let (mint, m) = spec_take_mint(m);
    let (pointer, m) = spec_take_below(m, Tag::Pointer.spec_value(), output_len as int);
    let flaw = or_flaw(flaw, etching is Some && spec_supply(etching.unwrap()) is None, Flaw::SupplyOverflow);
    let flaw = or_flaw(flaw, flags != 0, Flaw::UnrecognizedFlag);
    let flaw = or_flaw(flaw, fields_have_even_tag(m), Flaw::UnrecognizedEvenTag);
    if flaw is Some {
        ArtifactModel::Cenotaph(Cenotaph {
            flaw,
            mint,
            etching: match etching {
                Some(e) => e.rune,
                None => None,
            },
        })
    } else {
        ArtifactModel::Runestone(RunestoneModel {
            edicts,
            etching,
            mint,
            pointer: match pointer {
                Some(p) => Some(p as u32),
                None => None,
            },
        })
    }
}

/// What a runestone payload deciphers to: a cenotaph with the varint flaw
/// when the payload is not a sequence of LEB128 integers.
pub open spec fn spec_decipher(output_len: u32, payload: Seq<u8>) -> ArtifactModel {
    match spec_integers(payload) {
        Err(_) => ArtifactModel::Cenotaph(Cenotaph { flaw: Some(Flaw::Varint), mint: None, etching: None }),
        Ok(integers) => spec_decipher_integers(output_len, integers),
    }
}

/// Every cenotaph that a payload deciphers to carries its flaw, and every
/// runestone comes from a payload without one.
pub proof fn lemma_cenotaph_has_flaw(output_len: u32, payload: Seq<u8>)
    ensures
        spec_decipher(output_len, payload) matches ArtifactModel::Cenotaph(c) ==> c.flaw is Some,
{
}

/// The bits of the etching, terms and turbo flags.
proof fn lemma_flag_masks()
    ensures
        Flag::Etching.spec_mask() == 1,
        Flag::Terms.spec_mask() == 2,
        Flag::Turbo.spec_mask() == 4,
{
    assert(1u128 << 0u128 == 1u128 && 1u128 << 1u128 == 2u128 && 1u128 << 2u128 == 4u128) by (bit_vector);
}

/// When the flags field sets the etching bit, the payload etches a rune: a
/// runestone carries an etching whose turbo is the turbo bit and which has
/// terms exactly when the terms bit is set, whether or not the other is;
/// and flags within the etching, terms and turbo bits never make the
/// payload a cenotaph for an unrecognized flag.
pub proof fn lemma_etching_flags(output_len: u32, integers: Seq<u128>, f: u128)
    requires
        spec_message(output_len, integers).2.contains_key(2),
        spec_message(output_len, integers).2[2].len() > 0,
        spec_message(output_len, integers).2[2][0] == f,
        f & 1 != 0,
    ensures
        match spec_decipher_integers(output_len, integers) {
            ArtifactModel::Runestone(r) => r.etching matches Some(e) && e.turbo == (f & 4 != 0) && (e.terms is Some <==> f & 2 != 0),
            ArtifactModel::Cenotaph(c) => f < 8 ==> c.flaw != Some(Flaw::UnrecognizedFlag),
        },
{
    lemma_flag_masks();
    lemma_message_flaw(output_len, integers);
    let m = spec_message(output_len, integers).2;
    assert(fields_first(m, 2, 1) == Some(m[2].take(1)));
    assert(m[2].take(1)[0] == f);
    let g = f & !1u128;
    let h = g & !2u128;
    assert((g & 2u128 != 0) == (f & 2u128 != 0)) by (bit_vector)
        requires
            g == f & !1u128,
    ;
    assert((h & 4u128 != 0) == (f & 4u128 != 0)) by (bit_vector)
        requires
            g == f & !1u128,
            h == g & !2u128,
    ;
    assert(f < 8 ==> h & !4u128 == 0) by (bit_vector)
        requires
            g == f & !1u128,
            h == g & !2u128,
    ;
    let (flags, m1) = spec_take_at_most(m, Tag::Flags.spec_value(), u128::MAX as int);
    assert(flags == Some(f));
    assert(f & Flag::Etching.spec_mask() != 0);
    assert(f & !Flag::Etching.spec_mask() == g);
    let (e, left, _) = spec_etching(g, m1);
    assert(g & !Flag::Terms.spec_mask() == h);
    assert(e.turbo == (h & Flag::Turbo.spec_mask() != 0));
    assert(left == h & !Flag::Turbo.spec_mask());
    assert(e.terms is Some <==> g & Flag::Terms.spec_mask() != 0);
}

/// `char::from_u32`: the character whose scalar value is `v`, or `None`
/// when `v` is a surrogate or above `0x10FFFF`, as std documents it.
#[verifier::external_body]
fn char_from_u32(v: u32) -> (r: Option<char>)
    ensures
        r == (if is_scalar_value(v as int) {
            Some(v as char)
        } else {
            None
        }),
{
    char::from_u32(v)
}

/// Takes the symbol field when its first value is a Unicode scalar value.
fn take_symbol(fields: &mut Fields) -> (r: Option<char>)
    ensures
        (r, final(fields)@) == spec_take_symbol(old(fields)@),
{
    let tag = Tag::Symbol.value();
    match fields.first(tag, 1) {
        Some(values) => {
            let v = values[0];
            if v > u32::MAX as u128 {
                return None;
            }
            match char_from_u32(v as u32) {
                Some(c) => {
                    fields.drain(tag, 1);
                    Some(c)
                },
                None => None,
            }
        },
        None => None,
    }
}

/// Takes the mint field when its first two values name a valid rune id.
fn take_mint(fields: &mut Fields) -> (r: Option<RuneId>)
    ensures
        (r, final(fields)@) == spec_take_mint(old(fields)@),
{
    let tag = Tag::Mint.value();
    match fields.first(tag, 2) {
        Some(values) => {
            let block = values[0];
            let tx = values[1];
            if block > u64::MAX as u128 || tx > u32::MAX as u128 {
                return None;
            }
            match RuneId::new(block as u64, tx as u32) {
                Some(id) => {
                    fields.drain(tag, 2);
                    Some(id)
                },
                None => None,
            }
        },
        None => None,
    }
}

/// Takes the terms fields of an etching whose terms flag is set.
fn take_terms(fields: &mut Fields) -> (r: Terms)
    ensures
        (r, final(fields)@) == spec_terms(old(fields)@),
{
    let cap = Tag::Cap.take_any(fields);
    let height_start = Tag::HeightStart.take_at_most(fields, u64::MAX as u128);
    let height_end = Tag::HeightEnd.take_at_most(fields, u64::MAX as u128);
    let amount = Tag::Amount.take_any(fields);
    let offset_start = Tag::OffsetStart.take_at_most(fields, u64::MAX as u128);
    let offset_end = Tag::OffsetEnd.take_at_most(fields, u64::MAX as u128);
    Terms {
        cap,
        height: (to_u64(height_start), to_u64(height_end)),
        amount,
        offset: (to_u64(offset_start), to_u64(offset_end)),
    }
}

/// A value known to fit in a `u64`, as one.
fn to_u64(v: Option<u128>) -> (r: Option<u64>)
    requires
        v matches Some(x) ==> x <= u64::MAX,
    ensures
        r == narrow_u64(v),
{
    match v {
        Some(x) => Some(x as u64),
        None => None,
    }
}

/// Takes the fields of an etching whose etching flag is set, and its flags.
fn take_etching(flags: &mut u128, fields: &mut Fields) -> (r: Etching)
    ensures
        (r, *final(flags), final(fields)@) == spec_etching(*old(flags), old(fields)@),
{
    let divisibility = Tag::Divisibility.take_at_most(fields, Etching::MAX_DIVISIBILITY as u128);
    let premine = Tag::Premine.take_any(fields);
    let rune = Tag::Rune.take_any(fields);
    let spacers = Tag::Spacers.take_at_most(fields, Etching::MAX_SPACERS as u128);
    let symbol = take_symbol(fields);
    let terms = if Flag::Terms.take(flags) {
        Some(take_terms(fields))
    } else {
        None
    };
    let turbo = Flag::Turbo.take(flags);
    Etching {
        divisibility: match divisibility {
            Some(d) => Some(d as u8),
            None => None,
        },
        premine,
        rune: match rune {
            Some(r) => Some(Rune(r)),
            None => None,
        },
        spacers: match spacers {
            Some(s) => Some(s as u32),
            None => None,
        },
        symbol,
        terms,
        turbo,
    }
}

impl Runestone {
    /// The opcode that follows `OP_RETURN` in a runestone output.
    pub const MAGIC_NUMBER: u8 = OP_PUSHNUM_13;

    /// Confirmations that a rune commitment needs before its etching.
    pub const COMMIT_CONFIRMATIONS: u16 = 6;

    /// Deciphers a runestone payload. There is always an artifact: a
    /// cenotaph when the payload is malformed, a runestone otherwise.
    pub fn decipher(output_len: u32, payload: Vec<u8>) -> (r: Option<Artifact>)
        ensures
            r matches Some(a) && a@ == spec_decipher(output_len, payload@),
    {
        let integers = match Runestone::integers(&payload) {
            Ok(integers) => integers,
            Err(_) => {
                return Some(Artifact::Cenotaph(Cenotaph { flaw: Some(Flaw::Varint), mint: None, etching: None }));
            },
        };
        let Message { flaw, edicts, fields } = Message::from_integers(output_len, integers.as_slice());
        let mut flaw = flaw;
        let mut fields = fields;
        let mut flags: u128 = match Tag::Flags.take_any(&mut fields) {
            Some(f) => f,
            None => 0,
        };
        let etching = if Flag::Etching.take(&mut flags) {
            Some(take_etching(&mut flags, &mut fields))
        } else {
            None
        };
        let mint = take_mint(&mut fields);
        let pointer = Tag::Pointer.take_below(&mut fields, output_len as u128);
        let overflow = match etching {
            Some(e) => e.supply().is_none(),
            None => false,
        };
        if overflow && flaw.is_none() {
            flaw = Some(Flaw::SupplyOverflow);
        }
        if flags != 0 && flaw.is_none() {
            flaw = Some(Flaw::UnrecognizedFlag);
        }
        if flaw.is_none() && fields.has_even_tag() {
            flaw = Some(Flaw::UnrecognizedEvenTag);
        }
        if flaw.is_some() {
            return Some(Artifact::Cenotaph(Cenotaph {
                flaw,
                mint,
                etching: match etching {
                    Some(e) => e.rune,
                    None => None,
                },
            }));
        }
        Some(Artifact::Runestone(Runestone {
            edicts,
            etching,
            mint,
            pointer: match pointer {
                Some(p) => Some(p as u32),
                None => None,
            },
        }))
    }

    /// The LEB128 integers of a payload, or the error of the first that
    /// cannot be decoded.
    pub fn integers(payload: &[u8]) -> (r: Result<Vec<u128>, varint::Error>)
        ensures
            match r {
                Ok(v) => spec_integers(payload@) == Ok::<Seq<u128>, varint::Error>(v@),
                Err(e) => spec_integers(payload@) == Err::<Seq<u128>, varint::Error>(e),
            },
    {
        let mut integers: Vec<u128> = Vec::new();
        let mut i: usize = 0;
        proof {
            assert(payload@.skip(0) =~= payload@);
            match spec_integers(payload@) {
                Ok(all) => {
                    assert(integers@ + all =~= all);
                },
                Err(_) => {},
            }
        }
        while i < payload.len()
            invariant
                i <= payload.len(),
                spec_integers(payload@) == match spec_integers(payload@.skip(i as int)) {
                    Ok(rest) => Ok(integers@ + rest),
                    Err(e) => Err(e),
                },
            decreases payload.len() - i,
        {
            let rest = vstd::slice::slice_subrange(payload, i, payload.len());
            assert(rest@ =~= payload@.skip(i as int));
            match varint::decode(rest) {
                Err(e) => {
                    return Err(e);
                },
                Ok((integer, length)) => {
                    proof {
                        lemma_decode_length(rest@);
                        assert(rest@.skip(length as int) =~= payload@.skip(i + length));
                    }
                    let ghost old_integers = integers@;
                    integers.push(integer);
                    i = i + length;
                    proof {
                        match spec_integers(payload@.skip(i as int)) {
                            Ok(tail) => {
                                assert(old_integers + (seq![integer] + tail) =~= integers@ + tail);
                            },
                            Err(_) => {},
                        }
                    }
                },
            }
        }
        assert(payload@.skip(i as int) =~= Seq::<u8>::empty());
        assert(integers@ + Seq::<u128>::empty() =~= integers@);
        Ok(integers)
    }
}

} // verus!
