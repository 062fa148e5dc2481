use runes::flag::Flag;
use runes::rune::Rune;
use runes::tag::Tag;

#[test]
fn rune_names() {
    assert_eq!(Rune(0).to_string(), "A");
    assert_eq!(Rune(25).to_string(), "Z");
    assert_eq!(Rune(26).to_string(), "AA");
    assert_eq!(Rune(27).to_string(), "AB");
    assert_eq!(Rune(701).to_string(), "ZZ");
    assert_eq!(Rune(702).to_string(), "AAA");
    assert_eq!(Rune(2055900680524219742).to_string(), "UNCOMMONGOODS");
    assert_eq!(Rune(u128::MAX).to_string(), "BCGDENLQRQWDSLRUGSNLBTMFIJAV");
}

#[test]
fn flags() {
    let mut flags: u128 = 0b111;
    assert!(Flag::Terms.take(&mut flags));
    assert_eq!(flags, 0b101);
    assert!(!Flag::Terms.take(&mut flags));
    assert_eq!(flags, 0b101);
    assert_eq!(Flag::Etching.mask(), 1);
    assert_eq!(Flag::Turbo.mask(), 4);
    assert_eq!(Flag::Cenotaph.mask(), 1 << 127);
}

#[test]
fn tag_values() {
    assert_eq!(Tag::Body.value(), 0);
    assert_eq!(Tag::Flags.value(), 2);
    assert_eq!(Tag::Mint.value(), 20);
    assert_eq!(Tag::Pointer.value(), 22);
    assert_eq!(Tag::Cenotaph.value(), 126);
    assert_eq!(Tag::Divisibility.value(), 1);
    assert_eq!(Tag::Nop.value(), 127);
}
