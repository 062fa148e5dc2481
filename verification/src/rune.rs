use vstd::prelude::*;

verus! {

/// A rune name, as the integer that encodes it.
#[derive(Debug, PartialEq, Eq, Structural, Copy, Clone, Default, Hash, PartialOrd, Ord)]
pub struct Rune(pub u128);

/// The letter for `d`, counting `A` as zero.
pub open spec fn letter(d: nat) -> char {
    (d + 'A' as nat) as char
}

/// The letters of `n` in bijective base 26: `A` to `Z` for one to
/// twenty-six, `AA` for twenty-seven, and so on; nothing for zero.
pub open spec fn letters(n: nat) -> Seq<char>
    decreases n,
{
    if n == 0 {
        Seq::empty()
    } else {
        letters(((n - 1) / 26) as nat).push(letter(((n - 1) % 26) as nat))
    }
}

/// The name of a rune: the letters of its number plus one, so that zero is
/// `A`, twenty-five `Z` and twenty-six `AA`.
pub open spec fn spec_rune_name(rune: Rune) -> Seq<char> {
    letters(rune.0 as nat + 1)
}

/// `String::from_iter` over characters: the string of exactly those
/// characters.
#[verifier::external_body]
fn string_from_chars(chars: &[char]) -> (r: String)
    ensures
        r@ == chars@,
{
    chars.iter().collect()
}

impl Rune {
    /// The name of the rune, in capital letters.
    pub fn to_string(&self) -> (r: String)
        ensures
            r@ == spec_rune_name(*self),
    {
        let mut reversed: Vec<char> = Vec::new();
        let mut k: u128 = self.0;
        let ghost n0 = self.0 as nat + 1;
        loop
            invariant_except_break
                letters(n0) == letters(k as nat + 1) + reversed@.reverse(),
            invariant
                n0 == self.0 as nat + 1,
            ensures
                letters(n0) == reversed@.reverse(),
            decreases k,
        {
            let d = (k % 26) as u32;
            let c = char_of_letter(d);
            let ghost before = reversed@;
            reversed.push(c);
            proof {
                assert(reversed@.reverse() =~= seq![c] + before.reverse());
                assert(letters(k as nat + 1) == letters((k / 26) as nat).push(c));
                assert(letters((k / 26) as nat).push(c) + before.reverse() =~= letters((k / 26) as nat) + reversed@.reverse());
            }
            let q = k / 26;
            if q == 0 {
                assert(letters(0) =~= Seq::<char>::empty());
                assert(letters(n0) =~= reversed@.reverse());
                break;
            }
            k = q - 1;
        }
        let mut name: Vec<char> = Vec::new();
        let mut i: usize = reversed.len();
        while i > 0
            invariant
                i <= reversed@.len(),
                name@ =~= reversed@.subrange(i as int, reversed@.len() as int).reverse(),
            decreases i,
        {
            i = i - 1;
            name.push(reversed[i]);
            assert(name@ =~= reversed@.subrange(i as int, reversed@.len() as int).reverse());
        }
        assert(reversed@.subrange(0, reversed@.len() as int) =~= reversed@);
        string_from_chars(name.as_slice())
    }
}

/// The capital letter for `d`, counting `A` as zero.
fn char_of_letter(d: u32) -> (r: char)
    requires
        d < 26,
    ensures
        r == letter(d as nat),
{
    let b = (0x41 + d) as u8;
    let c = b as char;
    assert(c as int == d + 0x41);
    c
}

} // verus!
