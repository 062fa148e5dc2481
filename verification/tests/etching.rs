use runes::edict::Edict;
use runes::etching::Etching;
use runes::rune_id::RuneId;
use runes::terms::Terms;

#[test]
fn edict_output_may_equal_output_count() {
    let id = RuneId { block: 1, tx: 1 };
    assert_eq!(Edict::from_integers(2, id, 5, 0), Some(Edict { id, amount: 5, output: 0 }));
    assert_eq!(Edict::from_integers(2, id, 5, 2), Some(Edict { id, amount: 5, output: 2 }));
    assert_eq!(Edict::from_integers(2, id, 5, 3), None);
    assert_eq!(Edict::from_integers(u32::MAX, id, 5, u128::from(u32::MAX) + 1), None);
}

#[test]
fn supply_adds_premine_and_mints() {
    let mut etching = Etching::default();
    assert_eq!(etching.supply(), Some(0));
    etching.premine = Some(10);
    assert_eq!(etching.supply(), Some(10));
    etching.terms = Some(Terms { cap: Some(3), amount: Some(7), ..Default::default() });
    assert_eq!(etching.supply(), Some(31));
    etching.terms = Some(Terms { cap: Some(3), amount: None, ..Default::default() });
    assert_eq!(etching.supply(), Some(10));
}

#[test]
fn supply_overflow() {
    let etching = Etching {
        premine: Some(1),
        terms: Some(Terms { cap: Some(u128::MAX), amount: Some(1), ..Default::default() }),
        ..Default::default()
    };
    assert_eq!(etching.supply(), None);
    let etching = Etching {
        terms: Some(Terms { cap: Some(u128::MAX), amount: Some(2), ..Default::default() }),
        ..Default::default()
    };
    assert_eq!(etching.supply(), None);
    let etching = Etching {
        premine: Some(u128::MAX),
        ..Default::default()
    };
    assert_eq!(etching.supply(), Some(u128::MAX));
}

#[test]
fn limits() {
    assert_eq!(Etching::MAX_DIVISIBILITY, 38);
    assert_eq!(Etching::MAX_SPACERS, 0x07ff_ffff);
}
