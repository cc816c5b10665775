use borsh::{BorshDeserialize, BorshSerialize};
use student_intro::codec::{decode, encode};
use student_intro::error::RecordError;
use student_intro::instruction::Instruction;
use student_intro::state::Record;

fn record(initialized: bool, name: &str, message: &str) -> Record {
    Record {
        initialized,
        name: name.as_bytes().to_vec(),
        message: message.as_bytes().to_vec(),
    }
}

fn padded(mut v: Vec<u8>) -> Vec<u8> {
    while v.len() < 1000 {
        v.push(0);
    }
    v
}

#[test]
fn encode_exact_bytes() {
    let e = encode(&record(true, "AB", "C"));
    assert_eq!(e, vec![1, 2, 0, 0, 0, 65, 66, 1, 0, 0, 0, 67]);
}

#[test]
fn encode_uninitialized_flag() {
    let e = encode(&record(false, "", ""));
    assert_eq!(e, vec![0, 0, 0, 0, 0, 0, 0, 0, 0]);
}

#[test]
fn encode_matches_borsh_layout() {
    let r = record(true, "Alice", "Hello");
    let e = encode(&r);
    let b = borsh::to_vec(&(true, "Alice".to_string(), "Hello".to_string())).unwrap();
    assert_eq!(e, b);
}

#[test]
fn decode_matches_borsh_on_padded_buffer() {
    let buf = padded(encode(&record(true, "Alice", "Hello")));
    let ours = decode(&buf).unwrap();
    let theirs: (bool, String, String) =
        BorshDeserialize::deserialize(&mut &buf[..]).unwrap();
    assert_eq!(ours.initialized, theirs.0);
    assert_eq!(ours.name, theirs.1.as_bytes());
    assert_eq!(ours.message, theirs.2.as_bytes());
}

#[test]
fn round_trip_padded() {
    let r = record(true, "Alice", "Hello");
    let decoded = decode(&padded(encode(&r))).unwrap();
    assert_eq!(decoded, r);
}

#[test]
fn round_trip_exact_buffer() {
    let r = record(true, "name with spaces", "a somewhat longer message body");
    let decoded = decode(&encode(&r)).unwrap();
    assert_eq!(decoded, r);
}

#[test]
fn round_trip_largest_fitting_record() {
    let r = Record { initialized: true, name: vec![b'n'; 491], message: vec![b'm'; 500] };
    let e = encode(&r);
    assert_eq!(e.len(), 1000);
    assert_eq!(decode(&e).unwrap(), r);
}

#[test]
fn decode_all_zero_buffer() {
    let decoded = decode(&vec![0u8; 1000]).unwrap();
    assert_eq!(decoded, record(false, "", ""));
}

#[test]
fn decode_truncated_buffer_fails() {
    assert_eq!(decode(&vec![1, 5, 0, 0, 0]), None);
    assert_eq!(decode(&vec![]), None);
    assert_eq!(decode(&vec![1, 2, 0, 0, 0, 65, 66, 9, 0, 0, 0, 67]), None);
}

#[test]
fn decode_bad_flag_fails() {
    let mut buf = padded(encode(&record(true, "A", "B")));
    buf[0] = 2;
    assert_eq!(decode(&buf), None);
}

fn instruction_bytes(opcode: u8, name: &str, message: &str) -> Vec<u8> {
    let mut v = vec![opcode];
    v.extend_from_slice(&(name.len() as u32).to_le_bytes());
    v.extend_from_slice(name.as_bytes());
    v.extend_from_slice(&(message.len() as u32).to_le_bytes());
    v.extend_from_slice(message.as_bytes());
    v
}

#[test]
fn unpack_add() {
    let inst = Instruction::unpack(&instruction_bytes(0, "Alice", "Hello")).unwrap();
    match inst {
        Instruction::AddRecord { name, message } => {
            assert_eq!(name, b"Alice".to_vec());
            assert_eq!(message, b"Hello".to_vec());
        }
        other => panic!("expected AddRecord, got {:?}", other),
    }
}

#[test]
fn unpack_update() {
    let inst = Instruction::unpack(&instruction_bytes(1, "Alice", "Bye")).unwrap();
    match inst {
        Instruction::UpdateRecord { name, message } => {
            assert_eq!(name, b"Alice".to_vec());
            assert_eq!(message, b"Bye".to_vec());
        }
        other => panic!("expected UpdateRecord, got {:?}", other),
    }
}

#[test]
fn unpack_unknown_opcode_fails() {
    let r = Instruction::unpack(&instruction_bytes(2, "Alice", "Hello"));
    assert_eq!(r, Err(RecordError::InvalidInstruction));
}

#[test]
fn unpack_truncated_fails() {
    let mut v = instruction_bytes(0, "Alice", "Hello");
    v.pop();
    assert_eq!(Instruction::unpack(&v), Err(RecordError::InvalidInstruction));
    assert_eq!(Instruction::unpack(&vec![0]), Err(RecordError::InvalidInstruction));
    assert_eq!(Instruction::unpack(&vec![]), Err(RecordError::InvalidInstruction));
}

#[test]
fn unpack_empty_name_and_message() {
    let inst = Instruction::unpack(&instruction_bytes(0, "", "")).unwrap();
    match inst {
        Instruction::AddRecord { name, message } => {
            assert!(name.is_empty());
            assert!(message.is_empty());
        }
        other => panic!("expected AddRecord, got {:?}", other),
    }
}

fn raw_instruction_bytes(opcode: u8, name: &[u8], message: &[u8]) -> Vec<u8> {
    let mut v = vec![opcode];
    v.extend_from_slice(&(name.len() as u32).to_le_bytes());
    v.extend_from_slice(name);
    v.extend_from_slice(&(message.len() as u32).to_le_bytes());
    v.extend_from_slice(message);
    v
}

#[test]
fn unpack_rejects_invalid_utf8_name() {
    let v = raw_instruction_bytes(0, &[0xFF], b"");
    assert_eq!(v, vec![0, 1, 0, 0, 0, 0xFF, 0, 0, 0, 0]);
    assert_eq!(Instruction::unpack(&v), Err(RecordError::InvalidInstruction));
}

#[test]
fn unpack_rejects_invalid_utf8_message() {
    let v = raw_instruction_bytes(1, b"Alice", &[0xC3, 0x28]);
    assert_eq!(Instruction::unpack(&v), Err(RecordError::InvalidInstruction));
}

#[test]
fn unpack_rejects_overlong_and_surrogate_encodings() {
    // Overlong encoding of '\0'.
    let overlong = raw_instruction_bytes(0, &[0xC0, 0x80], b"hi");
    assert_eq!(Instruction::unpack(&overlong), Err(RecordError::InvalidInstruction));
    // Encoded UTF-16 surrogate U+D800.
    let surrogate = raw_instruction_bytes(0, b"ok", &[0xED, 0xA0, 0x80]);
    assert_eq!(Instruction::unpack(&surrogate), Err(RecordError::InvalidInstruction));
    // Multi-byte scalar cut short (length prefixes are still consistent).
    let truncated = raw_instruction_bytes(0, &[0xE2, 0x82], b"hi");
    assert_eq!(Instruction::unpack(&truncated), Err(RecordError::InvalidInstruction));
}

#[test]
fn unpack_accepts_multibyte_utf8() {
    let inst = Instruction::unpack(&raw_instruction_bytes(
        0,
        "héllo wörld".as_bytes(),
        "naïve — ✓ 🦀".as_bytes(),
    ))
    .unwrap();
    match inst {
        Instruction::AddRecord { name, message } => {
            assert_eq!(name, "héllo wörld".as_bytes());
            assert_eq!(message, "naïve — ✓ 🦀".as_bytes());
        }
        other => panic!("expected AddRecord, got {:?}", other),
    }
}

#[test]
fn utf8_validator_matches_std() {
    let candidates: Vec<Vec<u8>> = vec![
        vec![],
        b"plain ascii".to_vec(),
        "héllo wörld 🦀✓".as_bytes().to_vec(),
        vec![0xFF],
        vec![0xC0, 0x80],
        vec![0xC2],
        vec![0xC2, 0x7F],
        vec![0xC2, 0x80],
        vec![0xE0, 0x9F, 0x80],
        vec![0xE0, 0xA0, 0x80],
        vec![0xED, 0x9F, 0xBF],
        vec![0xED, 0xA0, 0x80],
        vec![0xEE, 0x80, 0x80],
        vec![0xF0, 0x8F, 0xBF, 0xBF],
        vec![0xF0, 0x90, 0x80, 0x80],
        vec![0xF4, 0x8F, 0xBF, 0xBF],
        vec![0xF4, 0x90, 0x80, 0x80],
        vec![0xF5, 0x80, 0x80, 0x80],
        vec![0x80],
        vec![0x41, 0xE2, 0x82, 0xAC, 0x42],
        vec![0x41, 0xE2, 0x82],
    ];
    for bytes in candidates {
        assert_eq!(
            student_intro::utf8::is_utf8(&bytes),
            std::str::from_utf8(&bytes).is_ok(),
            "validator disagrees with std on {:?}",
            bytes
        );
    }
}

#[test]
fn unpack_trailing_bytes_fail() {
    let mut v = instruction_bytes(1, "Alice", "Hello");
    v.push(0);
    assert_eq!(Instruction::unpack(&v), Err(RecordError::InvalidInstruction));
}
