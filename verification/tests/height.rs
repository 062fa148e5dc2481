use runes::epoch::Epoch;
use runes::height::Height;
use runes::sat::Sat;

#[test]
fn number() {
    assert_eq!(Height(7).n(), 7);
}

#[test]
fn subsidy_halves() {
    assert_eq!(Height(0).subsidy(), 5_000_000_000);
    assert_eq!(Height(209_999).subsidy(), 5_000_000_000);
    assert_eq!(Height(210_000).subsidy(), 2_500_000_000);
    assert_eq!(Height(420_000).subsidy(), 1_250_000_000);
    assert_eq!(Height(32 * 210_000).subsidy(), 1);
    assert_eq!(Height(33 * 210_000).subsidy(), 0);
    assert_eq!(Height(u32::MAX).subsidy(), 0);
}

#[test]
fn starting_sats() {
    assert_eq!(Height(0).starting_sat(), Sat(0));
    assert_eq!(Height(1).starting_sat(), Sat(5_000_000_000));
    assert_eq!(Height(210_000).starting_sat(), Sat(1_050_000_000_000_000));
    assert_eq!(Height(210_001).starting_sat(), Sat(1_050_002_500_000_000));
    assert_eq!(Height(33 * 210_000).starting_sat(), Sat(2_099_999_997_690_000));
    assert_eq!(Height(u32::MAX).starting_sat(), Sat(2_099_999_997_690_000));
}

#[test]
fn each_block_starts_after_the_previous_subsidy() {
    for n in [0u32, 1, 209_998, 209_999, 210_000, 6_929_999, 6_930_000] {
        assert_eq!(
            Height(n + 1).starting_sat().0,
            Height(n).starting_sat().0 + Height(n).subsidy()
        );
    }
}

#[test]
fn epochs() {
    assert_eq!(Epoch::from_height(Height(419_999)), Epoch(1));
    assert_eq!(Epoch(1).starting_height(), Height(210_000));
    assert_eq!(Epoch(2).starting_sat(), Sat(1_575_000_000_000_000));
    assert_eq!(Epoch(40).starting_sat(), Sat(2_099_999_997_690_000));
}

#[test]
fn period_offset() {
    assert_eq!(Height(0).period_offset(), 0);
    assert_eq!(Height(2015).period_offset(), 2015);
    assert_eq!(Height(2016).period_offset(), 0);
    assert_eq!(Height(2017).period_offset(), 1);
}

#[test]
fn arithmetic_and_comparison() {
    assert_eq!(Height(1) + 2, Height(3));
    assert_eq!(Height(5) - 2, Height(3));
    assert!(Height(3) == 3);
    assert!(Height(3) != 4);
}
