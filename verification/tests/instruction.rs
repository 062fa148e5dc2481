use runes::instruction::{Error, Instruction, Instructions};
use runes::opcodes::Opcode;
use runes::push_bytes::PushBytes;

fn push(bytes: &[u8]) -> Instruction {
    Instruction::PushBytes(PushBytes::from_slice(bytes).unwrap())
}

fn all(script: &[u8], enforce_minimal: bool) -> Vec<Result<Instruction, Error>> {
    let mut instructions = Instructions::new(script, enforce_minimal);
    let mut out = Vec::new();
    while let Some(i) = instructions.next() {
        out.push(i);
    }
    out
}

#[test]
fn reads_pushes_and_opcodes() {
    assert_eq!(
        all(&[0x6a, 0x02, 0xaa, 0xbb, 0x00, 0x4c, 0x01, 0xcc, 0x4d, 0x01, 0x00, 0xdd, 0x4e, 0x00, 0x00, 0x00, 0x00], false),
        vec![
            Ok(Instruction::Op(Opcode::from_u8(0x6a))),
            Ok(push(&[0xaa, 0xbb])),
            Ok(push(&[])),
            Ok(push(&[0xcc])),
            Ok(push(&[0xdd])),
            Ok(push(&[])),
        ]
    );
}

#[test]
fn early_end_stops_iteration() {
    assert_eq!(all(&[0x03, 0x01], false), vec![Err(Error::EarlyEndOfScript)]);
    assert_eq!(all(&[0x4d, 0x01], false), vec![Err(Error::EarlyEndOfScript)]);
    assert_eq!(all(&[0x4c, 0x05, 0x00], false), vec![Err(Error::EarlyEndOfScript)]);
}

#[test]
fn minimal_pushes() {
    assert_eq!(all(&[0x01, 0x05], true), vec![Err(Error::NonMinimalPush)]);
    assert_eq!(all(&[0x01, 0x81], true), vec![Err(Error::NonMinimalPush)]);
    assert_eq!(all(&[0x01, 0x05], false), vec![Ok(push(&[0x05]))]);
    assert_eq!(all(&[0x4c, 0x01, 0x05], true), vec![Err(Error::NonMinimalPush)]);
    assert_eq!(all(&[0x01, 0x11], true), vec![Ok(push(&[0x11]))]);
}

#[test]
fn accessors() {
    let op = Instruction::Op(Opcode::from_u8(0x6a));
    assert_eq!(op.opcode(), Some(Opcode::from_u8(0x6a)));
    assert_eq!(op.push_bytes(), None);
    let p = push(&[1, 2]);
    assert_eq!(p.opcode(), None);
    assert_eq!(p.push_bytes().unwrap().as_bytes(), &[1, 2]);
}

#[test]
fn script_numbers() {
    assert_eq!(Instruction::Op(Opcode::from_u8(0x51)).script_num(), Some(1));
    assert_eq!(Instruction::Op(Opcode::from_u8(0x60)).script_num(), Some(16));
    assert_eq!(Instruction::Op(Opcode::from_u8(0x4f)).script_num(), Some(-1));
    assert_eq!(Instruction::Op(Opcode::from_u8(0x6a)).script_num(), None);
    assert_eq!(push(&[]).script_num(), Some(0));
    assert_eq!(push(&[0x05]).script_num(), Some(5));
    assert_eq!(push(&[0x85]).script_num(), Some(-5));
    assert_eq!(push(&[0x00, 0x01]).script_num(), Some(256));
    assert_eq!(push(&[0xff, 0xff, 0xff, 0x7f]).script_num(), Some(0x7fff_ffff));
    assert_eq!(push(&[0xff, 0xff, 0xff, 0xff]).script_num(), Some(-0x7fff_ffff));
    assert_eq!(push(&[0x00, 0x80]).script_num(), Some(0));
    assert_eq!(push(&[1, 2, 3, 4, 5]).script_num(), None);
}

#[test]
fn serialized_lengths() {
    assert_eq!(Instruction::Op(Opcode::from_u8(0x6a)).script_serialized_len(), 1);
    assert_eq!(push(&[]).script_serialized_len(), 1);
    assert_eq!(push(&[0; 75]).script_serialized_len(), 76);
    assert_eq!(push(&[0; 76]).script_serialized_len(), 78);
    assert_eq!(push(&[0; 256]).script_serialized_len(), 259);
    assert_eq!(push(&vec![0; 0x10000]).script_serialized_len(), 0x10005);
}

#[test]
fn push_bytes() {
    let mut p = PushBytes::from_slice(&[1, 2, 3]).unwrap();
    assert_eq!(p.len(), 3);
    assert!(!p.is_empty());
    p.as_mut_bytes()[0] = 9;
    assert_eq!(p.as_bytes(), &[9, 2, 3]);
    assert!(PushBytes::empty().is_empty());
    assert_eq!(PushBytes::empty().len(), 0);
}
