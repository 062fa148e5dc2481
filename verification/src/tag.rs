use crate::fields::{fields_drain, fields_first, Fields};
use vstd::prelude::*;

verus! {

/// The meaning of an even or odd integer in tag position of a message.
#[derive(Debug, PartialEq, Eq, Structural, Copy, Clone)]
pub enum Tag {
    Body,
    Flags,
    Rune,
    Premine,
    Cap,
    Amount,
    HeightStart,
    HeightEnd,
    OffsetStart,
    OffsetEnd,
    Mint,
    Pointer,
    Cenotaph,
    Divisibility,
    Spacers,
    Symbol,
    Nop,
}

/// The first value of `tag` when it is at most `max`, and the fields
/// without it; otherwise nothing, and the fields as they were.
pub open spec fn spec_take_at_most(m: Map<u128, Seq<u128>>, tag: u128, max: int) -> (Option<u128>, Map<u128, Seq<u128>>) {
    match fields_first(m, tag, 1) {
        Some(s) => if s[0] <= max {
            (Some(s[0]), fields_drain(m, tag, 1))
        } else {
            (None, m)
        },
        None => (None, m),
    }
}

/// The first value of `tag` when it is below `limit`, and the fields without
/// it; otherwise nothing, and the fields as they were.
pub open spec fn spec_take_below(m: Map<u128, Seq<u128>>, tag: u128, limit: int) -> (Option<u128>, Map<u128, Seq<u128>>) {
    spec_take_at_most(m, tag, limit - 1)
}

impl Tag {
    /// The integer that stands for the tag in a message.
    pub open spec fn spec_value(self) -> u128 {
        match self {
            Tag::Body => 0,
            Tag::Flags => 2,
            Tag::Rune => 4,
            Tag::Premine => 6,
            Tag::Cap => 8,
            Tag::Amount => 10,
            Tag::HeightStart => 12,
            Tag::HeightEnd => 14,
            Tag::OffsetStart => 16,
            Tag::OffsetEnd => 18,
            Tag::Mint => 20,
            Tag::Pointer => 22,
            Tag::Cenotaph => 126,
            Tag::Divisibility => 1,
            Tag::Spacers => 3,
            Tag::Symbol => 5,
            Tag::Nop => 127,
        }
    }

    /// The integer that stands for the tag in a message.
    #[verifier::when_used_as_spec(spec_value)]
    pub fn value(self) -> (r: u128)
        ensures
            r == self.spec_value(),
    {
        match self {
            Tag::Body => 0,
            Tag::Flags => 2,
            Tag::Rune => 4,
            Tag::Premine => 6,
            Tag::Cap => 8,
            Tag::Amount => 10,
            Tag::HeightStart => 12,
            Tag::HeightEnd => 14,
            Tag::OffsetStart => 16,
            Tag::OffsetEnd => 18,
            Tag::Mint => 20,
            Tag::Pointer => 22,
            Tag::Cenotaph => 126,
            Tag::Divisibility => 1,
            Tag::Spacers => 3,
            Tag::Symbol => 5,
            Tag::Nop => 127,
        }
    }

    /// Takes the first value of this tag when it is at most `max`; a value
    /// that is too large stays where it is.
    pub fn take_at_most(self, fields: &mut Fields, max: u128) -> (r: Option<u128>)
        ensures
            (r, final(fields)@) == spec_take_at_most(old(fields)@, self.spec_value(), max as int),
    {
        let tag = self.value();
        match fields.first(tag, 1) {
            Some(values) => {
                let v = values[0];
                if v <= max {
                    fields.drain(tag, 1);
                    Some(v)
                } else {
                    None
                }
            },
            None => None,
        }
    }

    /// Takes the first value of this tag when it is below `limit`; a value
    /// that is too large stays where it is.
    pub fn take_below(self, fields: &mut Fields, limit: u128) -> (r: Option<u128>)
        ensures
            (r, final(fields)@) == spec_take_below(old(fields)@, self.spec_value(), limit as int),
    {
        let tag = self.value();
        match fields.first(tag, 1) {
            Some(values) => {
                let v = values[0];
                if v < limit {
                    fields.drain(tag, 1);
                    Some(v)
                } else {
                    None
                }
            },
            None => None,
        }
    }

    /// Takes the first value of this tag, whatever it is.
    pub fn take_any(self, fields: &mut Fields) -> (r: Option<u128>)
        ensures
            (r, final(fields)@) == spec_take_at_most(old(fields)@, self.spec_value(), u128::MAX as int),
    {
        self.take_at_most(fields, u128::MAX)
    }
}

} // verus!
