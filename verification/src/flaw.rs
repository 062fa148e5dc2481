use vstd::prelude::*;

verus! {

/// Why a runestone is a cenotaph.
#[derive(Debug, PartialEq, Eq, Structural, Copy, Clone)]
pub enum Flaw {
    /// An edict names an output past the last one.
    EdictOutput,
    /// An edict's rune id does not follow from the previous one.
    EdictRuneId,
    /// The script could not be read as instructions.
    InvalidScript,
    /// The payload holds an opcode that is not a data push.
    Opcode,
    /// Premine plus cap times amount exceeds `u128::MAX`.
    SupplyOverflow,
    /// The edicts end with fewer than four integers.
    TrailingIntegers,
    /// The last tag has no value.
    TruncatedField,
    /// An even tag was left unread.
    UnrecognizedEvenTag,
    /// A flag bit was left unread.
    UnrecognizedFlag,
    /// The payload is not a sequence of LEB128 integers.
    Varint,
}

} // verus!
