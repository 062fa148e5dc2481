use runes::artifact::Artifact;
use runes::cenotaph::Cenotaph;
use runes::edict::Edict;
use runes::etching::Etching;
use runes::flaw::Flaw;
use runes::rune::Rune;
use runes::rune_id::RuneId;
use runes::runestone::Runestone;
use runes::terms::Terms;

fn encode(mut n: u128, out: &mut Vec<u8>) {
    while n >> 7 > 0 {
        out.push((n as u8 & 0x7f) | 0x80);
        n >>= 7;
    }
    out.push(n as u8);
}

fn payload(integers: &[u128]) -> Vec<u8> {
    let mut out = Vec::new();
    for &n in integers {
        encode(n, &mut out);
    }
    out
}

fn decipher(output_len: u32, integers: &[u128]) -> Artifact {
    Runestone::decipher(output_len, payload(integers)).unwrap()
}

fn cenotaph(flaw: Flaw) -> Artifact {
    Artifact::Cenotaph(Cenotaph { flaw: Some(flaw), mint: None, etching: None })
}

#[test]
fn empty_payload_is_an_empty_runestone() {
    assert_eq!(decipher(1, &[]), Artifact::Runestone(Runestone::default()));
}

#[test]
fn bad_varint_is_a_cenotaph() {
    assert_eq!(Runestone::decipher(1, vec![0x80]), Some(cenotaph(Flaw::Varint)));
}

#[test]
fn edicts_after_body() {
    assert_eq!(
        decipher(2, &[0, 1, 2, 3, 0, 0, 1, 5, 2]),
        Artifact::Runestone(Runestone {
            edicts: vec![
                Edict { id: RuneId { block: 1, tx: 2 }, amount: 3, output: 0 },
                Edict { id: RuneId { block: 1, tx: 3 }, amount: 5, output: 2 },
            ],
            ..Default::default()
        })
    );
}

#[test]
fn edict_flaws() {
    assert_eq!(decipher(1, &[0, 1, 2, 3]), cenotaph(Flaw::TrailingIntegers));
    assert_eq!(decipher(1, &[0, 0, 1, 3, 0]), cenotaph(Flaw::EdictRuneId));
    assert_eq!(decipher(1, &[0, 1, 2, 3, 2]), cenotaph(Flaw::EdictOutput));
}

#[test]
fn truncated_field() {
    assert_eq!(decipher(1, &[2]), cenotaph(Flaw::TruncatedField));
    assert_eq!(decipher(1, &[9, 1, 4]), cenotaph(Flaw::TruncatedField));
}

#[test]
fn etching_fields() {
    assert_eq!(
        decipher(1, &[2, 1, 4, 5, 1, 3, 3, 7, 5, 0x41, 6, 100]),
        Artifact::Runestone(Runestone {
            etching: Some(Etching {
                rune: Some(Rune(5)),
                divisibility: Some(3),
                spacers: Some(7),
                symbol: Some('A'),
                premine: Some(100),
                ..Default::default()
            }),
            ..Default::default()
        })
    );
}

#[test]
fn etching_with_terms_and_turbo() {
    assert_eq!(
        decipher(1, &[2, 7, 8, 10, 10, 3, 12, 100, 14, 200, 16, 1, 18, 2]),
        Artifact::Runestone(Runestone {
            etching: Some(Etching {
                terms: Some(Terms {
                    cap: Some(10),
                    amount: Some(3),
                    height: (Some(100), Some(200)),
                    offset: (Some(1), Some(2)),
                }),
                turbo: true,
                ..Default::default()
            }),
            ..Default::default()
        })
    );
}

#[test]
fn invalid_odd_fields_are_ignored() {
    assert_eq!(
        decipher(1, &[2, 1, 1, 39, 3, 0x0800_0000, 5, 0xD800, 9, 1]),
        Artifact::Runestone(Runestone { etching: Some(Etching::default()), ..Default::default() })
    );
}

#[test]
fn unread_even_tag_is_a_cenotaph() {
    assert_eq!(decipher(1, &[30, 1]), cenotaph(Flaw::UnrecognizedEvenTag));
    assert_eq!(decipher(1, &[22, 1]), cenotaph(Flaw::UnrecognizedEvenTag));
    assert_eq!(decipher(1, &[4, 5]), cenotaph(Flaw::UnrecognizedEvenTag));
}

#[test]
fn unread_flag_is_a_cenotaph() {
    assert_eq!(decipher(1, &[2, 8]), cenotaph(Flaw::UnrecognizedFlag));
    assert_eq!(decipher(1, &[2, 4]), cenotaph(Flaw::UnrecognizedFlag));
    assert_eq!(decipher(1, &[2, 2]), cenotaph(Flaw::UnrecognizedFlag));
}

#[test]
fn supply_overflow_is_a_cenotaph() {
    assert_eq!(
        decipher(1, &[2, 3, 4, 9, 6, u128::MAX, 8, 1, 10, 1]),
        Artifact::Cenotaph(Cenotaph { flaw: Some(Flaw::SupplyOverflow), mint: None, etching: Some(Rune(9)) })
    );
}

#[test]
fn mint_and_pointer() {
    assert_eq!(
        decipher(2, &[20, 1, 20, 2, 22, 1]),
        Artifact::Runestone(Runestone {
            mint: Some(RuneId { block: 1, tx: 2 }),
            pointer: Some(1),
            ..Default::default()
        })
    );
}

#[test]
fn cenotaph_keeps_mint_and_rune() {
    assert_eq!(
        decipher(1, &[2, 1, 4, 11, 20, 3, 20, 4, 30, 0]),
        Artifact::Cenotaph(Cenotaph {
            flaw: Some(Flaw::UnrecognizedEvenTag),
            mint: Some(RuneId { block: 3, tx: 4 }),
            etching: Some(Rune(11)),
        })
    );
}

#[test]
fn invalid_mint_is_a_cenotaph() {
    assert_eq!(
        decipher(1, &[20, 0, 20, 1]),
        cenotaph(Flaw::UnrecognizedEvenTag)
    );
}

#[test]
fn message_flaw_comes_first() {
    assert_eq!(decipher(1, &[2, 8, 0, 1]), cenotaph(Flaw::TrailingIntegers));
}

#[test]
fn integers_of_a_payload() {
    assert_eq!(Runestone::integers(&[0, 0x80, 0x01, 5]), Ok(vec![0, 128, 5]));
    assert_eq!(Runestone::integers(&[]), Ok(vec![]));
    assert!(Runestone::integers(&[1, 0x80]).is_err());
}

#[test]
fn constants() {
    assert_eq!(Runestone::MAGIC_NUMBER, 0x5d);
    assert_eq!(Runestone::COMMIT_CONFIRMATIONS, 6);
}
