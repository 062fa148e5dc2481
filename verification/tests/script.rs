use runes::artifact::Artifact;
use runes::cenotaph::Cenotaph;
use runes::edict::Edict;
use runes::flaw::Flaw;
use runes::rune_id::RuneId;
use runes::runestone::Runestone;
use runes::script::decipher;

fn cenotaph(flaw: Flaw) -> Option<Artifact> {
    Some(Artifact::Cenotaph(Cenotaph { flaw: Some(flaw), mint: None, etching: None }))
}

#[test]
fn not_a_runestone() {
    assert_eq!(decipher(1, "zz".to_string()), None);
    assert_eq!(decipher(1, "6a5".to_string()), None);
    assert_eq!(decipher(1, "".to_string()), None);
    assert_eq!(decipher(1, "6a".to_string()), None);
    assert_eq!(decipher(1, "6a5c".to_string()), None);
    assert_eq!(decipher(1, "5d6a".to_string()), None);
    assert_eq!(decipher(1, "6a015d".to_string()), None);
}

#[test]
fn empty_runestone() {
    assert_eq!(decipher(1, "6a5d".to_string()), Some(Artifact::Runestone(Runestone::default())));
    assert_eq!(decipher(1, "6A5D00".to_string()), Some(Artifact::Runestone(Runestone::default())));
}

#[test]
fn pushes_are_concatenated() {
    assert_eq!(
        decipher(2, "6a5d030001024c0203000402000200".to_string()),
        Some(Artifact::Runestone(Runestone {
            edicts: vec![
                Edict { id: RuneId { block: 1, tx: 2 }, amount: 3, output: 0 },
                Edict { id: RuneId { block: 3, tx: 0 }, amount: 2, output: 0 },
            ],
            ..Default::default()
        }))
    );
}

#[test]
fn opcode_in_payload() {
    assert_eq!(decipher(1, "6a5d51".to_string()), cenotaph(Flaw::Opcode));
    assert_eq!(decipher(1, "6a5d0100ac".to_string()), cenotaph(Flaw::Opcode));
}

#[test]
fn unreadable_script() {
    assert_eq!(decipher(1, "6a5d02".to_string()), cenotaph(Flaw::InvalidScript));
    assert_eq!(decipher(1, "6a5d4d01".to_string()), cenotaph(Flaw::InvalidScript));
}

#[test]
fn varint_flaw() {
    assert_eq!(decipher(1, "6a5d0180".to_string()), cenotaph(Flaw::Varint));
}
