//! Decoding of instruction buffers.

use counter_program::instruction::{
    OPERAND_INSTRUCTION_LEN, OP_DECREMENT, OP_INCREMENT, OP_RESET, OP_UPDATE,
};
use counter_program::{decode, DecodeError, Instruction};

#[test]
fn decodes_increment_48() {
    assert_eq!(decode(&[0x00, 48, 0, 0, 0]), Ok(Instruction::Increment(48)));
}

#[test]
fn decodes_decrement_16() {
    assert_eq!(decode(&[0x01, 16, 0, 0, 0]), Ok(Instruction::Decrement(16)));
}

#[test]
fn decodes_decrement_100() {
    assert_eq!(decode(&[0x01, 100, 0, 0, 0]), Ok(Instruction::Decrement(100)));
}

#[test]
fn decodes_update_33() {
    assert_eq!(decode(&[0x02, 33, 0, 0, 0]), Ok(Instruction::Update(33)));
}

#[test]
fn decodes_reset() {
    assert_eq!(decode(&[0x03]), Ok(Instruction::Reset));
}

#[test]
fn rejects_opcode_9() {
    assert_eq!(decode(&[0x09]), Err(DecodeError::UnknownOpcode));
}

#[test]
fn rejects_every_opcode_above_3() {
    for opcode in 4u8..=255u8 {
        assert_eq!(decode(&[opcode]), Err(DecodeError::UnknownOpcode));
        assert_eq!(decode(&[opcode, 1, 2, 3, 4]), Err(DecodeError::UnknownOpcode));
        assert_eq!(decode(&[opcode, 1, 2, 3, 4, 5]), Err(DecodeError::UnknownOpcode));
    }
}

#[test]
fn rejects_empty_buffer_as_unknown_opcode() {
    assert_eq!(decode(&[]), Err(DecodeError::UnknownOpcode));
}

#[test]
fn rejects_short_operands() {
    for opcode in [OP_INCREMENT, OP_DECREMENT, OP_UPDATE] {
        assert_eq!(decode(&[opcode]), Err(DecodeError::TruncatedPayload));
        assert_eq!(decode(&[opcode, 1]), Err(DecodeError::TruncatedPayload));
        assert_eq!(decode(&[opcode, 1, 2]), Err(DecodeError::TruncatedPayload));
        assert_eq!(decode(&[opcode, 1, 2, 3]), Err(DecodeError::TruncatedPayload));
    }
}

#[test]
fn operand_is_little_endian() {
    assert_eq!(decode(&[0, 0x78, 0x56, 0x34, 0x12]), Ok(Instruction::Increment(0x1234_5678)));
    assert_eq!(decode(&[1, 0, 1, 0, 0]), Ok(Instruction::Decrement(256)));
    assert_eq!(decode(&[2, 0, 0, 1, 0]), Ok(Instruction::Update(65_536)));
    assert_eq!(decode(&[2, 0, 0, 0, 1]), Ok(Instruction::Update(16_777_216)));
    assert_eq!(decode(&[0, 0xff, 0xff, 0xff, 0xff]), Ok(Instruction::Increment(u32::MAX)));
    assert_eq!(decode(&[0, 0, 0, 0, 0]), Ok(Instruction::Increment(0)));
}

#[test]
fn reset_ignores_trailing_bytes() {
    assert_eq!(decode(&[3, 1]), Ok(Instruction::Reset));
    assert_eq!(decode(&[3, 0xff, 0xff, 0xff, 0xff, 0xff]), Ok(Instruction::Reset));
}

#[test]
fn operand_instructions_ignore_bytes_after_the_operand() {
    assert_eq!(decode(&[0, 48, 0, 0, 0, 99]), Ok(Instruction::Increment(48)));
    assert_eq!(decode(&[1, 1, 1, 0, 0, 0xff, 0xff, 0xff]), Ok(Instruction::Decrement(257)));
    assert_eq!(decode(&[2, 7, 0, 0, 0, 0]), Ok(Instruction::Update(7)));
}

#[test]
fn equal_buffers_decode_alike() {
    let buffers: Vec<Vec<u8>> = vec![
        vec![],
        vec![0],
        vec![0, 1, 2, 3, 4],
        vec![1, 9, 9, 9, 9, 9],
        vec![2, 0, 0],
        vec![3],
        vec![3, 3, 3],
        vec![200, 1, 2, 3, 4],
    ];
    for buffer in buffers {
        let copy: Vec<u8> = buffer.clone();
        assert_eq!(decode(&buffer), decode(&copy));
        assert_eq!(decode(&buffer), decode(&buffer));
    }
}

#[test]
fn every_buffer_has_an_outcome() {
    for opcode in 0u8..=255u8 {
        for len in 1usize..=7usize {
            let mut buffer: Vec<u8> = vec![0x5a; len];
            buffer[0] = opcode;
            let expected: Result<Instruction, DecodeError> = if opcode == OP_RESET {
                Ok(Instruction::Reset)
            } else if opcode > OP_RESET {
                Err(DecodeError::UnknownOpcode)
            } else if len < OPERAND_INSTRUCTION_LEN {
                Err(DecodeError::TruncatedPayload)
            } else if opcode == OP_INCREMENT {
                Ok(Instruction::Increment(0x5a5a_5a5a))
            } else if opcode == OP_DECREMENT {
                Ok(Instruction::Decrement(0x5a5a_5a5a))
            } else {
                Ok(Instruction::Update(0x5a5a_5a5a))
            };
            assert_eq!(decode(&buffer), expected);
        }
    }
}

#[test]
fn opcode_and_length_constants() {
    assert_eq!(OP_INCREMENT, 0);
    assert_eq!(OP_DECREMENT, 1);
    assert_eq!(OP_UPDATE, 2);
    assert_eq!(OP_RESET, 3);
    assert_eq!(OPERAND_INSTRUCTION_LEN, 5);
}
