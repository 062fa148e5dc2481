use crate::artifact::{Artifact, ArtifactModel};
use crate::cenotaph::Cenotaph;
use crate::flaw::Flaw;
use crate::instruction::{spec_next_instruction, Instruction, InstructionModel, Instructions};
use crate::opcodes::OP_RETURN;
use crate::runestone::{spec_decipher, Runestone};
use vstd::prelude::*;

verus! {

/// Whether `c` is a hexadecimal digit, in either case.
pub open spec fn is_hex_digit(c: char) -> bool {
    ('0' <= c && c <= '9') || ('a' <= c && c <= 'f') || ('A' <= c && c <= 'F')
}

/// The value of a hexadecimal digit.
pub open spec fn hex_digit_value(c: char) -> int {
    if '0' <= c && c <= '9' {
        c as int - '0' as int
    } else if 'a' <= c && c <= 'f' {
        c as int - 'a' as int + 10
    } else {
        c as int - 'A' as int + 10
    }
}

/// The bytes that a text of hexadecimal digits spells, two digits a byte,
/// the high nibble first; `None` unless the text is an even number of
/// hexadecimal digits.
pub open spec fn spec_hex_decode(s: Seq<char>) -> Option<Seq<u8>> {
    if s.len() % 2 == 0 && forall|i: int| 0 <= i < s.len() ==> #[trigger] is_hex_digit(s[i]) {
        Some(Seq::new(s.len() / 2, |i: int| (16 * hex_digit_value(s[2 * i]) + hex_digit_value(s[2 * i + 1])) as u8))
    } else {
        None
    }
}

/// `hex::decode` on the UTF-8 bytes of `s`. It accepts exactly the texts of
/// an even number of ASCII hexadecimal digits of either case (any other
/// character is outside the digits, and a text of hexadecimal digits has as
/// many bytes as characters) and turns each pair of digits into one byte,
/// the first digit being the high nibble. The error that it reports is not
/// kept.
#[verifier::external_body]
fn hex_decode(s: &str) -> (r: Option<Vec<u8>>)
    ensures
        match r {
            Some(v) => spec_hex_decode(s@) == Some(v@),
            None => spec_hex_decode(s@) is None,
        },
{
    hex::decode(s).ok()
}

/// The data of a runestone output after `OP_RETURN` and the magic number:
/// the concatenated pushes, or the flaw that makes it a cenotaph.
enum Payload {
    Valid(Vec<u8>),
    Invalid(Flaw),
}

/// The payload of the script bytes `rem`: the bytes of its pushes, one after
/// another; an opcode that pushes nothing gives the opcode flaw, an
/// unreadable instruction the invalid script flaw.
pub open spec fn spec_payload(rem: Seq<u8>) -> Result<Seq<u8>, Flaw>
    decreases rem.len(),
{
    let (next, rest) = spec_next_instruction(rem, false);
    match next {
        None => Ok(Seq::empty()),
        Some(Ok(InstructionModel::PushBytes(bytes))) => {
            proof {
                lemma_next_instruction_shrinks(rem, false);
            }
            match spec_payload(rest) {
                Ok(tail) => Ok(bytes + tail),
                Err(f) => Err(f),
            }
        },
        Some(Ok(InstructionModel::Op(_))) => Err(Flaw::Opcode),
        Some(Err(_)) => Err(Flaw::InvalidScript),
    }
}

/// Reading an instruction consumes at least one byte.
pub proof fn lemma_next_instruction_shrinks(rem: Seq<u8>, enforce_minimal: bool)
    ensures
        spec_next_instruction(rem, enforce_minimal).0 is Some ==> spec_next_instruction(rem, enforce_minimal).1.len() < rem.len(),
        spec_next_instruction(rem, enforce_minimal).0 is None ==> rem.len() == 0,
{
}

/// A direct push of `b` contributes exactly its bytes to the payload, in
/// place, and reading goes on after it: an empty push adds nothing and
/// stops nothing.
pub proof fn lemma_payload_of_push(b: Seq<u8>, rest: Seq<u8>)
    requires
        b.len() <= 0x4b,
    ensures
        spec_payload(seq![b.len() as u8] + b + rest) == match spec_payload(rest) {
            Ok(tail) => Ok(b + tail),
            Err(f) => Err(f),
        },
{
    let script = seq![b.len() as u8] + b + rest;
    assert(script[0] == b.len() as u8);
    assert(script.drop_first() =~= b + rest);
    assert((b + rest).take(b.len() as int) =~= b);
    assert((b + rest).skip(b.len() as int) =~= rest);
    assert(spec_next_instruction(script, false) == (Some(Ok::<InstructionModel, crate::instruction::Error>(InstructionModel::PushBytes(b))), rest));
}

/// An instruction that cannot be read ends the iteration: the next read
/// finds nothing, so no stream of errors follows.
pub proof fn lemma_error_ends_instructions(rem: Seq<u8>, enforce_minimal: bool)
    requires
        spec_next_instruction(rem, enforce_minimal).0 matches Some(Err(_)),
    ensures
        spec_next_instruction(spec_next_instruction(rem, enforce_minimal).1, enforce_minimal).0 is None,
{
}

/// What a runestone output script, in hexadecimal, deciphers to: `None`
/// unless it is hexadecimal and starts with `OP_RETURN` and the magic number;
/// a cenotaph when the rest is not all pushes; otherwise what the pushed
/// payload deciphers to.
pub open spec fn spec_decipher_script(output_len: u32, script: Seq<char>) -> Option<ArtifactModel> {
    match spec_hex_decode(script) {
        None => None,
        Some(bytes) => {
            let (first, rest) = spec_next_instruction(bytes, false);
            if first != Some(Ok::<InstructionModel, crate::instruction::Error>(InstructionModel::Op(OP_RETURN))) {
                None
            } else {
                let (second, rest) = spec_next_instruction(rest, false);
                if second != Some(Ok::<InstructionModel, crate::instruction::Error>(InstructionModel::Op(Runestone::MAGIC_NUMBER))) {
                    None
                } else {
                    match spec_payload(rest) {
                        Err(flaw) => Some(ArtifactModel::Cenotaph(Cenotaph { flaw: Some(flaw), mint: None, etching: None })),
                        Ok(payload) => Some(spec_decipher(output_len, payload)),
                    }
                }
            }
        },
    }
}

/// Collects the pushes of the remaining instructions.
fn collect_payload(instructions: &mut Instructions) -> (r: Payload)
    requires
        !old(instructions).enforces_minimal(),
    ensures
        match r {
            Payload::Valid(v) => spec_payload(old(instructions)@) == Ok::<Seq<u8>, Flaw>(v@),
            Payload::Invalid(f) => spec_payload(old(instructions)@) == Err::<Seq<u8>, Flaw>(f),
        },
{
    let mut payload: Vec<u8> = Vec::new();
    let ghost start = instructions@;
    loop
        invariant
            !instructions.enforces_minimal(),
            start == old(instructions)@,
            spec_payload(start) == match spec_payload(instructions@) {
                Ok(tail) => Ok(payload@ + tail),
                Err(f) => Err(f),
            },
        decreases instructions@.len(),
    {
        let ghost before = instructions@;
        proof {
            lemma_next_instruction_shrinks(before, false);
        }
        match instructions.next() {
            None => {
                assert(payload@ + Seq::<u8>::empty() =~= payload@);
                return Payload::Valid(payload);
            },
            Some(Ok(Instruction::PushBytes(push))) => {
                let ghost old_payload = payload@;
                payload.extend_from_slice(push.as_bytes());
                assert(payload@ =~= old_payload + push@);
                proof {
                    match spec_payload(instructions@) {
                        Ok(tail) => {
                            assert(old_payload + (push@ + tail) =~= payload@ + tail);
                        },
                        Err(_) => {},
                    }
                }
            },
            Some(Ok(Instruction::Op(_))) => {
                return Payload::Invalid(Flaw::Opcode);
            },
            Some(Err(_)) => {
                return Payload::Invalid(Flaw::InvalidScript);
            },
        }
    }
}

/// Deciphers a runestone output script given in hexadecimal. `None` when
/// the text is not hexadecimal or the script does not start with
/// `OP_RETURN` and the magic number; a cenotaph when an instruction after
/// them is not a push or cannot be read; otherwise what the concatenated
/// pushes decipher to.
pub fn decipher(output_len: u32, script_pubkey_string: String) -> (r: Option<Artifact>)
    ensures
        match r {
            Some(a) => spec_decipher_script(output_len, script_pubkey_string@) == Some(a@),
            None => spec_decipher_script(output_len, script_pubkey_string@) is None,
        },
{
    let script_bytes = match hex_decode(script_pubkey_string.as_str()) {
        Some(bytes) => bytes,
        None => {
            return None;
        },
    };
    let mut instructions = Instructions::new(script_bytes.as_slice(), false);
    match instructions.next() {
        Some(Ok(Instruction::Op(op))) => {
            if op.to_u8() != OP_RETURN {
                return None;
            }
        },
        _ => {
            return None;
        },
    }
    match instructions.next() {
        Some(Ok(Instruction::Op(op))) => {
            if op.to_u8() != Runestone::MAGIC_NUMBER {
                return None;
            }
        },
        _ => {
            return None;
        },
    }
    match collect_payload(&mut instructions) {
        Payload::Invalid(flaw) => Some(Artifact::Cenotaph(Cenotaph { flaw: Some(flaw), mint: None, etching: None })),
        Payload::Valid(payload) => Runestone::decipher(output_len, payload),
    }
}

} // verus!
