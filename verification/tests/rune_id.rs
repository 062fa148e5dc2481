use runes::rune_id::{Error, RuneId};

#[test]
fn new_rejects_transactions_of_block_zero() {
    assert_eq!(RuneId::new(0, 0), Some(RuneId { block: 0, tx: 0 }));
    assert_eq!(RuneId::new(0, 1), None);
    assert_eq!(RuneId::new(1, 0), Some(RuneId { block: 1, tx: 0 }));
    assert_eq!(RuneId::new(5, 7), Some(RuneId { block: 5, tx: 7 }));
}

#[test]
fn delta_within_and_across_blocks() {
    let a = RuneId { block: 10, tx: 3 };
    assert_eq!(a.delta(RuneId { block: 10, tx: 7 }), Some((0, 4)));
    assert_eq!(a.delta(RuneId { block: 12, tx: 1 }), Some((2, 1)));
    assert_eq!(a.delta(RuneId { block: 10, tx: 2 }), None);
    assert_eq!(a.delta(RuneId { block: 9, tx: 9 }), None);
    assert_eq!(a.delta(a), Some((0, 0)));
}

#[test]
fn next_within_and_across_blocks() {
    let a = RuneId { block: 10, tx: 3 };
    assert_eq!(a.next(0, 4), Some(RuneId { block: 10, tx: 7 }));
    assert_eq!(a.next(2, 1), Some(RuneId { block: 12, tx: 1 }));
    assert_eq!(a.next(u128::from(u64::MAX), 0), None);
    assert_eq!(a.next(1 << 64, 0), None);
    assert_eq!(a.next(1, 1 << 32), None);
    assert_eq!(RuneId { block: 0, tx: u32::MAX }.next(0, 1), None);
    assert_eq!(RuneId { block: 0, tx: 0 }.next(0, 1), None);
}

#[test]
fn next_undoes_delta() {
    let ids = [
        RuneId { block: 0, tx: 0 },
        RuneId { block: 1, tx: 0 },
        RuneId { block: 1, tx: 9 },
        RuneId { block: 840_000, tx: 1 },
        RuneId { block: u64::MAX, tx: u32::MAX },
    ];
    for from in ids {
        for to in ids {
            if let Some((block, tx)) = from.delta(to) {
                assert_eq!(from.next(block, tx), Some(to));
                assert_eq!(from.delta(from.next(block, tx).unwrap()), Some((block, tx)));
            }
        }
    }
}

#[test]
fn text_form() {
    let id = RuneId { block: 840_000, tx: 42 };
    assert_eq!(id.to_string(), "840000:42");
    assert_eq!(RuneId::parse("840000:42"), Ok(id));
    assert_eq!("1:2".parse::<RuneId>(), Ok(RuneId { block: 1, tx: 2 }));
    assert_eq!(RuneId::parse(&RuneId { block: u64::MAX, tx: 0 }.to_string()), Ok(RuneId { block: u64::MAX, tx: 0 }));
}

#[test]
fn text_errors() {
    assert_eq!(RuneId::parse("1"), Err(Error::Separator));
    assert!(matches!(RuneId::parse("x:1"), Err(Error::Block(_))));
    assert!(matches!(RuneId::parse(":1"), Err(Error::Block(_))));
    assert!(matches!(RuneId::parse("1:x"), Err(Error::Transaction(_))));
    assert!(matches!(RuneId::parse("1:4294967296"), Err(Error::Transaction(_))));
    assert!(matches!(RuneId::parse("1:2:3"), Err(Error::Transaction(_))));
}
