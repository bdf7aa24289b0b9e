//! The transition function and the invocation built on it.

use crate::error::CounterError;
use crate::instruction::{decode, decode_spec, Instruction};
use crate::state::{lemma_account_roundtrip, CounterAccount, ACCOUNT_LEN};
use vstd::prelude::*;

verus! {

/// The counter that `instr` leaves behind when it finds `counter`, over the
/// mathematical integers. Addition wraps at 2^32; subtraction stops at zero.
pub open spec fn next_counter(counter: int, instr: Instruction) -> int {
    match instr {
        Instruction::Increment(value) => (counter + value) % 0x1_0000_0000,
        Instruction::Decrement(value) => if value > counter {
            0
        } else {
            counter - value
        },
        Instruction::Reset => 0,
        Instruction::Update(value) => value as int,
    }
}

/// The record that `instr` leaves behind when it finds `current`.
pub open spec fn apply_spec(current: CounterAccount, instr: Instruction) -> CounterAccount {
    CounterAccount { counter: next_counter(current.counter as int, instr) as u32 }
}

/// No instruction takes a counter that fits in 32 bits to one that does not.
pub proof fn lemma_next_counter_in_range(counter: int, instr: Instruction)
    requires
        0 <= counter <= u32::MAX,
    ensures
        0 <= next_counter(counter, instr) <= u32::MAX,
{
}

/// Applies one instruction to the current record.
pub fn apply(current: CounterAccount, instr: Instruction) -> (next: CounterAccount)
    ensures
        next.counter == next_counter(current.counter as int, instr),
        next == apply_spec(current, instr),
{
    let counter: u32 = match instr {
        Instruction::Increment(value) => current.counter.wrapping_add(value),
        Instruction::Decrement(value) => if value > current.counter {
            0
        } else {
            current.counter - value
        },
        Instruction::Reset => 0,
        Instruction::Update(value) => value,
    };
    CounterAccount { counter }
}

/// What `instr` does to the record buffer `state`: the bytes it leaves
/// there, or the reason for which it leaves the buffer alone.
pub open spec fn execute_spec(state: Seq<u8>, instr: Instruction) -> Result<Seq<u8>, CounterError> {
    match CounterAccount::decode_spec(state) {
        None => Err(CounterError::StateDeserializationError),
        Some(current) => Ok(apply_spec(current, instr).encode_spec()),
    }
}

/// What one invocation does to the record buffer `state`. The instruction is
/// decoded before the record is looked at, so an invocation that is wrong on
/// both counts is rejected for its instruction.
pub open spec fn process_spec(state: Seq<u8>, instruction_data: Seq<u8>) -> Result<
    Seq<u8>,
    CounterError,
> {
    match decode_spec(instruction_data) {
        Err(e) => Err(CounterError::Decode(e)),
        Ok(instr) => execute_spec(state, instr),
    }
}

/// Reads the record in `state`, applies `instr` to it and writes the new
/// record back.
///
/// `state` must hold exactly one record; any other buffer is rejected and
/// left as it was.
pub fn execute(state: &mut [u8], instr: Instruction) -> (result: Result<(), CounterError>)
    ensures
        match execute_spec(old(state)@, instr) {
            Ok(bytes) => result is Ok && final(state)@ == bytes,
            Err(e) => result == Err::<(), CounterError>(e) && final(state)@ == old(state)@,
        },
{
    let current = match CounterAccount::try_from_slice(state) {
        Ok(current) => current,
        Err(e) => {
            return Err(e);
        },
    };
    let next = apply(current, instr);
    let written = next.serialize(state);
    assert(state@ =~= next.encode_spec()) by {
        assert(old(state)@.skip(ACCOUNT_LEN as int) =~= Seq::<u8>::empty());
    }
    written
}

/// Runs one invocation: decodes `instruction_data` and executes the
/// instruction on the record in `state`.
///
/// On any error `state` is left exactly as it was.
pub fn process_instruction(state: &mut [u8], instruction_data: &[u8]) -> (result: Result<
    (),
    CounterError,
>)
    ensures
        match process_spec(old(state)@, instruction_data@) {
            Ok(bytes) => result is Ok && final(state)@ == bytes,
            Err(e) => result == Err::<(), CounterError>(e) && final(state)@ == old(state)@,
        },
{
    match decode(instruction_data) {
        Ok(instr) => execute(state, instr),
        Err(e) => Err(CounterError::Decode(e)),
    }
}

/// An invocation succeeds exactly when its instruction decodes and the
/// record buffer has the size of a record. It then leaves a record that
/// decodes to the result of the transition, so that the next invocation
/// starts from it. Writing the record back is never what fails.
pub proof fn lemma_process_leaves_record(state: Seq<u8>, instruction_data: Seq<u8>)
    ensures
        process_spec(state, instruction_data) is Ok <==> decode_spec(instruction_data) is Ok
            && state.len() == ACCOUNT_LEN,
        process_spec(state, instruction_data) matches Ok(bytes) ==> bytes.len() == ACCOUNT_LEN
            && CounterAccount::decode_spec(bytes) == Some(
            apply_spec(
                CounterAccount::decode_spec(state)->0,
                decode_spec(instruction_data)->Ok_0,
            ),
        ),
        process_spec(state, instruction_data) != Err::<Seq<u8>, CounterError>(
            CounterError::StateSerializationError,
        ),
{
    if let Ok(instr) = decode_spec(instruction_data) {
        if let Some(current) = CounterAccount::decode_spec(state) {
            lemma_account_roundtrip(apply_spec(current, instr));
        }
    }
}

} // verus!
