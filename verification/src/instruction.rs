//! The instruction set and its wire format.
//!
//! An instruction buffer starts with one opcode byte. Opcodes 0, 1 and 2 are
//! followed by a four-byte little-endian operand; opcode 3 stands alone.
//! Bytes after the part that an opcode calls for are not read.

use crate::wire::{read_u32_le, u32_from_le};
use vstd::prelude::*;

verus! {

/// Opcode of [`Instruction::Increment`].
pub const OP_INCREMENT: u8 = 0;

/// Opcode of [`Instruction::Decrement`].
pub const OP_DECREMENT: u8 = 1;

/// Opcode of [`Instruction::Update`].
pub const OP_UPDATE: u8 = 2;

/// Opcode of [`Instruction::Reset`].
pub const OP_RESET: u8 = 3;

/// Length of an instruction that carries an operand: opcode plus four bytes.
pub const OPERAND_INSTRUCTION_LEN: usize = 5;

/// One operation on the counter.
#[derive(Debug, Clone, Copy, PartialEq, Eq, Structural)]
pub enum Instruction {
    /// Add the operand to the counter, modulo 2^32.
    Increment(u32),
    /// Subtract the operand from the counter, stopping at zero.
    Decrement(u32),
    /// Replace the counter by the operand.
    Update(u32),
    /// Set the counter to zero.
    Reset,
}

/// Why an instruction buffer was rejected.
#[derive(Debug, Clone, Copy, PartialEq, Eq, Structural)]
pub enum DecodeError {
    /// The buffer does not start with one of the four opcodes. An empty
    /// buffer, which has no opcode at all, is reported this way too.
    UnknownOpcode,
    /// The opcode takes an operand and fewer than four bytes follow it.
    TruncatedPayload,
}

/// The instruction that `buffer` denotes, or the reason why it denotes none.
pub open spec fn decode_spec(buffer: Seq<u8>) -> Result<Instruction, DecodeError> {
    if buffer.len() == 0 {
        Err(DecodeError::UnknownOpcode)
    } else if buffer[0] == OP_RESET {
        Ok(Instruction::Reset)
    } else if buffer[0] > OP_RESET {
        Err(DecodeError::UnknownOpcode)
    } else if buffer.len() < OPERAND_INSTRUCTION_LEN {
        Err(DecodeError::TruncatedPayload)
    } else {
        let operand = u32_from_le(buffer.subrange(1, OPERAND_INSTRUCTION_LEN as int));
        if buffer[0] == OP_INCREMENT {
            Ok(Instruction::Increment(operand))
        } else if buffer[0] == OP_DECREMENT {
            Ok(Instruction::Decrement(operand))
        } else {
            Ok(Instruction::Update(operand))
        }
    }
}

/// Decodes an instruction buffer.
///
/// Never panics and reads nothing but `buffer`: the outcome is
/// `decode_spec` of the bytes, so equal buffers decode alike.
pub fn decode(buffer: &[u8]) -> (result: Result<Instruction, DecodeError>)
    ensures
        result == decode_spec(buffer@),
{
    if buffer.len() == 0 {
        return Err(DecodeError::UnknownOpcode);
    }
    let opcode: u8 = buffer[0];
    if opcode == OP_RESET {
        return Ok(Instruction::Reset);
    }
    if opcode > OP_RESET {
        return Err(DecodeError::UnknownOpcode);
    }
    if buffer.len() < OPERAND_INSTRUCTION_LEN {
        return Err(DecodeError::TruncatedPayload);
    }
    let operand: u32 = read_u32_le(buffer, 1);
    if opcode == OP_INCREMENT {
        Ok(Instruction::Increment(operand))
    } else if opcode == OP_DECREMENT {
        Ok(Instruction::Decrement(operand))
    } else {
        Ok(Instruction::Update(operand))
    }
}

/// Decoding is total and deterministic: every buffer has an outcome, which
/// is an instruction exactly when the buffer starts with a known opcode and
/// holds the operand that the opcode calls for; and two buffers with the
/// same bytes have the same outcome.
pub proof fn lemma_decode_total_and_deterministic(a: Seq<u8>, b: Seq<u8>)
    requires
        a =~= b,
    ensures
        decode_spec(a) == decode_spec(b),
        decode_spec(a) is Ok <==> a.len() >= 1 && (a[0] == OP_RESET || (a[0] < OP_RESET && a.len()
            >= OPERAND_INSTRUCTION_LEN)),
        decode_spec(a) == Err::<Instruction, DecodeError>(DecodeError::UnknownOpcode) <==> a.len()
            == 0 || a[0] > OP_RESET,
        decode_spec(a) == Err::<Instruction, DecodeError>(DecodeError::TruncatedPayload) <==>
            a.len() >= 1 && a[0] < OP_RESET && a.len() < OPERAND_INSTRUCTION_LEN,
{
}

/// Bytes after a well-formed instruction do not change what it decodes to.
pub proof fn lemma_decode_ignores_trailing_bytes(buffer: Seq<u8>, trailing: Seq<u8>)
    requires
        decode_spec(buffer) is Ok,
    ensures
        decode_spec(buffer + trailing) == decode_spec(buffer),
{
    let longer = buffer + trailing;
    assert(longer[0] == buffer[0]);
    if buffer[0] < OP_RESET {
        assert(longer.subrange(1, OPERAND_INSTRUCTION_LEN as int) =~= buffer.subrange(
            1,
            OPERAND_INSTRUCTION_LEN as int,
        ));
    }
}

} // verus!
