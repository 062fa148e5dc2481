use std::num::ParseIntError;
use std::str::FromStr;
use vstd::prelude::*;

verus! {

#[verifier::external_type_specification]
#[verifier::external_body]
pub struct ExParseIntError(ParseIntError);

/// Why a text is not a rune id.
#[derive(Debug, PartialEq)]
pub enum Error {
    /// There is no `:` between block and transaction.
    Separator,
    /// The block is not a `u64`.
    Block(ParseIntError),
    /// The transaction is not a `u32`.
    Transaction(ParseIntError),
}

/// Whether `c` is a decimal digit.
pub open spec fn is_digit(c: char) -> bool {
    '0' <= c && c <= '9'
}

/// The number that the decimal digits `s` spell.
pub open spec fn digits_value(s: Seq<char>) -> nat
    decreases s.len(),
{
    if s.len() == 0 {
        0
    } else {
        digits_value(s.drop_last()) * 10 + (s.last() as int - '0' as int) as nat
    }
}

/// The number that `s` spells as std's integer parsing reads it: an
/// optional `+` and at least one decimal digit, nothing else.
pub open spec fn decimal_number(s: Seq<char>) -> Option<nat> {
    let digits = if s.len() > 0 && s[0] == '+' { s.drop_first() } else { s };
    if digits.len() > 0 && forall|i: int| 0 <= i < digits.len() ==> #[trigger] is_digit(digits[i]) {
        Some(digits_value(digits))
    } else {
        None
    }
}

/// The decimal digit of `d`.
pub open spec fn digit_char(d: nat) -> char {
    (d + '0' as nat) as char
}

/// The shortest decimal writing of `n`.
pub open spec fn decimal_digits(n: nat) -> Seq<char>
    decreases n,
{
    if n < 10 {
        seq![digit_char(n)]
    } else {
        decimal_digits(n / 10).push(digit_char(n % 10))
    }
}

/// A rune id written as block, `:` and transaction, in decimal.
pub open spec fn spec_rune_id_text(id: RuneId) -> Seq<char> {
    decimal_digits(id.block as nat) + seq![':'] + decimal_digits(id.tx as nat)
}

/// The index of the first `:` of `s`, if any.
pub open spec fn first_colon(s: Seq<char>) -> Option<int> {
    if exists|i: int| 0 <= i < s.len() && s[i] == ':' {
        Some(choose|i: int| 0 <= i < s.len() && s[i] == ':' && forall|j: int| 0 <= j < i ==> s[j] != ':')
    } else {
        None
    }
}

/// The rune id that a text names: a block that is a `u64`, the first `:`,
/// and a transaction that is a `u32`.
pub open spec fn spec_rune_id_from_text(s: Seq<char>) -> Option<RuneId> {
    match first_colon(s) {
        None => None,
        Some(i) => match (decimal_number(s.take(i)), decimal_number(s.skip(i + 1))) {
            (Some(block), Some(tx)) => if block <= u64::MAX && tx <= u32::MAX {
                Some(RuneId { block: block as u64, tx: tx as u32 })
            } else {
                None
            },
            _ => None,
        },
    }
}

/// `str::split_once` at the first `:`: the text before it and the text
/// after it, or `None` when there is no `:`.
#[verifier::external_body]
fn split_once_colon(s: &str) -> (r: Option<(&str, &str)>)
    ensures
        match r {
            None => first_colon(s@) is None,
            Some((before, after)) => first_colon(s@) matches Some(i) && before@ == s@.take(i) && after@ == s@.skip(i + 1),
        },
{
    s.split_once(':')
}

/// `u64::from_str`: the number that `s` spells when it is an optional `+`
/// and decimal digits whose value fits in a `u64`; an error otherwise. What
/// the error says is not stated.
#[verifier::external_body]
fn parse_u64(s: &str) -> (r: Result<u64, ParseIntError>)
    ensures
        r is Ok <==> (decimal_number(s@) matches Some(v) && v <= u64::MAX),
        r matches Ok(v) ==> decimal_number(s@) == Some(v as nat),
{
    s.parse::<u64>()
}

/// `u32::from_str`: the number that `s` spells when it is an optional `+`
/// and decimal digits whose value fits in a `u32`; an error otherwise. What
/// the error says is not stated.
#[verifier::external_body]
fn parse_u32(s: &str) -> (r: Result<u32, ParseIntError>)
    ensures
        r is Ok <==> (decimal_number(s@) matches Some(v) && v <= u32::MAX),
        r matches Ok(v) ==> decimal_number(s@) == Some(v as nat),
{
    s.parse::<u32>()
}

/// `format!` of a block and a transaction around a `:`: their shortest
/// decimal writings, as `Display` of unsigned integers writes them.
#[verifier::external_body]
fn format_rune_id(block: u64, tx: u32) -> (r: String)
    ensures
        r@ == decimal_digits(block as nat) + seq![':'] + decimal_digits(tx as nat),
{
    format!("{}:{}", block, tx)
}

/// Identifies a rune by the block in which it was etched and the index of the
/// etching transaction within that block.
#[derive(Debug, PartialEq, Eq, Structural, Copy, Clone, Hash, PartialOrd, Ord, Default)]
pub struct RuneId {
    pub block: u64,
    pub tx: u32,
}

/// A rune id is valid unless it names a non-zero transaction of block zero.
pub open spec fn valid_rune_id(block: int, tx: int) -> bool {
    !(block == 0 && tx > 0)
}

impl RuneId {
    /// Builds a rune id; block zero only admits transaction zero.
    pub fn new(block: u64, tx: u32) -> (r: Option<RuneId>)
        ensures
            r is Some <==> valid_rune_id(block as int, tx as int),
            r matches Some(id) ==> id.block == block && id.tx == tx,
    {
        let id = RuneId { block, tx };
        if id.block == 0 && id.tx > 0 {
            return None;
        }
        Some(id)
    }

    /// The offset from `self` to `next`: the block difference, and the
    /// transaction difference within the same block or the transaction index
    /// of `next` in a later block. `None` when `next` comes before `self`.
    pub fn delta(self, next: RuneId) -> (r: Option<(u128, u128)>)
        ensures
            r == spec_delta(self, next),
    {
        if next.block < self.block {
            return None;
        }
        let block = next.block - self.block;
        let tx = if block == 0 {
            if next.tx < self.tx {
                return None;
            }
            next.tx - self.tx
        } else {
            next.tx
        };
        Some((block as u128, tx as u128))
    }

    /// The rune id reached from `self` by the offset `(block, tx)`, read as
    /// `delta` writes it. `None` when a component does not fit or the result
    /// is not a valid rune id.
    pub fn next(self, block: u128, tx: u128) -> (r: Option<RuneId>)
        ensures
            r == spec_next(self, block as int, tx as int),
    {
        if block > u64::MAX as u128 {
            return None;
        }
        let block64 = block as u64;
        let new_block = match self.block.checked_add(block64) {
            Some(b) => b,
            None => return None,
        };
        if tx > u32::MAX as u128 {
            return None;
        }
        let tx32 = tx as u32;
        let new_tx = if block == 0 {
            match self.tx.checked_add(tx32) {
                Some(t) => t,
                None => return None,
            }
        } else {
            tx32
        };
        RuneId::new(new_block, new_tx)
    }
}

impl RuneId {
    /// The rune id as text: block, `:`, transaction.
    pub fn to_string(&self) -> (r: String)
        ensures
            r@ == spec_rune_id_text(*self),
    {
        format_rune_id(self.block, self.tx)
    }
}

/// What reading the text `s` as a rune id gives: the rune id that the text
/// names, or the error of the first part that is wrong.
pub open spec fn is_rune_id_parse_result(s: Seq<char>, r: Result<RuneId, Error>) -> bool {
    &&& match r {
        Ok(id) => spec_rune_id_from_text(s) == Some(id),
        Err(Error::Separator) => first_colon(s) is None,
        Err(Error::Block(_)) => first_colon(s) matches Some(i) && !(decimal_number(s.take(i)) matches Some(v) && v <= u64::MAX),
        Err(Error::Transaction(_)) => first_colon(s) matches Some(i) && (decimal_number(s.take(i)) matches Some(v) && v <= u64::MAX) && !(decimal_number(s.skip(i + 1)) matches Some(w) && w <= u32::MAX),
    }
    &&& (r is Ok <==> spec_rune_id_from_text(s) is Some)
}

impl FromStr for RuneId {
    type Err = Error;

    fn from_str(s: &str) -> (r: Result<Self, Self::Err>)
        ensures
            is_rune_id_parse_result(s@, r),
    {
        RuneId::parse(s)
    }
}

impl RuneId {
    /// Reads a rune id written as block, `:`, transaction.
    pub fn parse(s: &str) -> (r: Result<RuneId, Error>)
        ensures
            is_rune_id_parse_result(s@, r),
    {
        let (height, index) = match split_once_colon(s) {
            Some(parts) => parts,
            None => {
                return Err(Error::Separator);
            },
        };
        let block = match parse_u64(height) {
            Ok(b) => b,
            Err(e) => {
                return Err(Error::Block(e));
            },
        };
        let tx = match parse_u32(index) {
            Ok(t) => t,
            Err(e) => {
                return Err(Error::Transaction(e));
            },
        };
        Ok(RuneId { block, tx })
    }
}

/// The shortest decimal writing of a number is a non-empty run of digits
/// that spells the number.
pub proof fn lemma_decimal_digits(n: nat)
    ensures
        decimal_digits(n).len() > 0,
        forall|i: int| 0 <= i < decimal_digits(n).len() ==> #[trigger] is_digit(decimal_digits(n)[i]),
        digits_value(decimal_digits(n)) == n,
    decreases n,
{
    if n >= 10 {
        lemma_decimal_digits(n / 10);
        let d = decimal_digits(n);
        assert(digit_char(n % 10) as int == n % 10 + '0' as int);
        assert(d.last() == digit_char(n % 10));
        assert(d.drop_last() =~= decimal_digits(n / 10));
        assert(digits_value(d) == digits_value(decimal_digits(n / 10)) * 10 + n % 10);
        assert forall|i: int| 0 <= i < d.len() implies #[trigger] is_digit(d[i]) by {
            if i < d.len() - 1 {
                assert(d[i] == decimal_digits(n / 10)[i]);
            }
        }
    } else {
        assert(seq![digit_char(n)].drop_last() =~= Seq::<char>::empty());
        assert(digit_char(n) as int == n + '0' as int);
        assert(digits_value(Seq::<char>::empty()) == 0);
        assert(digits_value(seq![digit_char(n)]) == n);
    }
}

/// A rune id written out as text reads back as the same rune id.
pub proof fn lemma_rune_id_text_round_trip(id: RuneId)
    ensures
        spec_rune_id_from_text(spec_rune_id_text(id)) == Some(id),
{
    let a = decimal_digits(id.block as nat);
    let b = decimal_digits(id.tx as nat);
    let s = spec_rune_id_text(id);
    lemma_decimal_digits(id.block as nat);
    lemma_decimal_digits(id.tx as nat);
    let k = a.len() as int;
    assert(s[k] == ':');
    assert forall|j: int| 0 <= j < k implies s[j] != ':' by {
        assert(s[j] == a[j]);
        assert(is_digit(a[j]));
    }
    assert(exists|i: int| 0 <= i < s.len() && s[i] == ':');
    let c = first_colon(s).unwrap();
    assert(c == k) by {
        if c < k {
            assert(s[c] != ':');
        }
        if c > k {
            assert(s[k] != ':');
        }
    }
    assert(s.take(k) =~= a);
    assert(s.skip(k + 1) =~= b);
    assert(a[0] != '+') by {
        assert(is_digit(a[0]));
    }
    assert(b[0] != '+') by {
        assert(is_digit(b[0]));
    }
}

/// The offset between two rune ids, as `RuneId::delta` computes it.
pub open spec fn spec_delta(from: RuneId, to: RuneId) -> Option<(u128, u128)> {
    if to.block < from.block {
        None
    } else if to.block == from.block {
        if to.tx < from.tx {
            None
        } else {
            Some((0u128, (to.tx - from.tx) as u128))
        }
    } else {
        Some(((to.block - from.block) as u128, to.tx as u128))
    }
}

/// The rune id reached from `from` by the offset `(block, tx)`.
pub open spec fn spec_next(from: RuneId, block: int, tx: int) -> Option<RuneId> {
    let new_block = from.block + block;
    let new_tx = if block == 0 { from.tx + tx } else { tx };
    if block > u64::MAX || new_block > u64::MAX || tx > u32::MAX || new_tx > u32::MAX {
        None
    } else if !valid_rune_id(new_block, new_tx) {
        None
    } else {
        Some(RuneId { block: new_block as u64, tx: new_tx as u32 })
    }
}

/// Stepping from `from` by the offset that `delta` gives reaches `to` again,
/// for every valid `to`.
pub proof fn lemma_next_inverts_delta(from: RuneId, to: RuneId)
    requires
        valid_rune_id(to.block as int, to.tx as int),
        spec_delta(from, to) is Some,
    ensures
        ({
            let (block, tx) = spec_delta(from, to).unwrap();
            spec_next(from, block as int, tx as int) == Some(to)
        }),
{
}

/// The offset that `delta` computes towards the id that `next` reached is the
/// offset that `next` was given.
pub proof fn lemma_delta_inverts_next(from: RuneId, block: u128, tx: u128)
    requires
        spec_next(from, block as int, tx as int) is Some,
    ensures
        spec_delta(from, spec_next(from, block as int, tx as int).unwrap()) == Some((block, tx)),
{
}

} // verus!
