//! The persisted record and its byte layout.
//!
//! The record is stored in Borsh layout, which for its single `u32` field is
//! the field's four little-endian bytes. Encoding and decoding are left to
//! the `borsh` crate; what this module assumes of it is stated on the two
//! private functions at the end.

use crate::error::CounterError;
use crate::wire::{
    lemma_u32_le_bytes_roundtrip, lemma_u32_le_value_roundtrip, u32_from_le, u32_to_le,
};
use vstd::prelude::*;

verus! {

/// Length in bytes of an encoded [`CounterAccount`].
pub const ACCOUNT_LEN: usize = 4;

/// The persisted state: a single counter.
#[derive(Debug, Clone, Copy, PartialEq, Eq, Structural)]
pub struct CounterAccount {
    pub counter: u32,
}

impl CounterAccount {
    /// The record that `bytes` holds. Only a buffer of exactly four bytes
    /// holds one.
    pub open spec fn decode_spec(bytes: Seq<u8>) -> Option<CounterAccount> {
        if bytes.len() == ACCOUNT_LEN {
            Some(CounterAccount { counter: u32_from_le(bytes) })
        } else {
            None
        }
    }

    /// The four bytes that hold this record.
    pub open spec fn encode_spec(self) -> Seq<u8> {
        u32_to_le(self.counter)
    }

    /// Reads a record from `bytes`, which must be exactly the encoded
    /// record: a shorter or a longer buffer is rejected.
    pub fn try_from_slice(bytes: &[u8]) -> (result: Result<CounterAccount, CounterError>)
        ensures
            result == match Self::decode_spec(bytes@) {
                Some(account) => Ok::<CounterAccount, CounterError>(account),
                None => Err(CounterError::StateDeserializationError),
            },
    {
        match borsh_u32_from_slice(bytes) {
            Some(counter) => Ok(CounterAccount { counter }),
            None => Err(CounterError::StateDeserializationError),
        }
    }

    /// The encoded record, as a fresh vector of four bytes. This always
    /// succeeds, and the bytes decode to the record again.
    pub fn try_to_vec(&self) -> (result: Result<Vec<u8>, CounterError>)
        ensures
            result matches Ok(bytes) && bytes@ == self.encode_spec(),
            result matches Ok(bytes) && Self::decode_spec(bytes@) == Some(*self),
    {
        proof {
            lemma_account_roundtrip(*self);
        }
        match borsh_u32_to_vec(self.counter) {
            Some(bytes) => Ok(bytes),
            None => Err(CounterError::StateSerializationError),
        }
    }

    /// Writes the encoded record over the first four bytes of `buffer` and
    /// leaves the rest alone. A buffer of fewer than four bytes is rejected
    /// and not touched.
    pub fn serialize(&self, buffer: &mut [u8]) -> (result: Result<(), CounterError>)
        ensures
            old(buffer)@.len() >= ACCOUNT_LEN ==> result is Ok && final(buffer)@
                == self.encode_spec() + old(buffer)@.skip(ACCOUNT_LEN as int),
            old(buffer)@.len() < ACCOUNT_LEN ==> result == Err::<(), CounterError>(
                CounterError::StateSerializationError,
            ) && final(buffer)@ == old(buffer)@,
    {
        let encoded = match self.try_to_vec() {
            Ok(bytes) => bytes,
            Err(e) => {
                return Err(e);
            },
        };
        if buffer.len() < ACCOUNT_LEN {
            return Err(CounterError::StateSerializationError);
        }
        let mut i: usize = 0;
        while i < ACCOUNT_LEN
            invariant
                i <= ACCOUNT_LEN,
                encoded@.len() == ACCOUNT_LEN,
                buffer@.len() == old(buffer)@.len(),
                buffer@.len() >= ACCOUNT_LEN,
                forall|j: int| 0 <= j < i ==> buffer@[j] == encoded@[j],
                forall|j: int| i <= j < buffer@.len() ==> buffer@[j] == old(buffer)@[j],
            decreases ACCOUNT_LEN - i,
        {
            buffer[i] = encoded[i];
            i += 1;
        }
        assert(buffer@ =~= self.encode_spec() + old(buffer)@.skip(ACCOUNT_LEN as int));
        Ok(())
    }
}

/// Encoding a record and decoding the bytes gives the record again, for
/// every value of the counter.
pub proof fn lemma_account_roundtrip(account: CounterAccount)
    ensures
        account.encode_spec().len() == ACCOUNT_LEN,
        CounterAccount::decode_spec(account.encode_spec()) == Some(account),
{
    lemma_u32_le_value_roundtrip(account.counter);
}

/// A buffer of the size of a record holds one, and is the encoding of the
/// record it holds: no record has a second encoding.
pub proof fn lemma_account_bytes_roundtrip(bytes: Seq<u8>)
    requires
        bytes.len() == ACCOUNT_LEN,
    ensures
        CounterAccount::decode_spec(bytes) is Some,
        CounterAccount::decode_spec(bytes)->0.encode_spec() == bytes,
{
    lemma_u32_le_bytes_roundtrip(bytes);
}

/// `borsh`'s `try_from_slice` on `u32`. Assumed of it: it yields a value
/// exactly when `bytes` has four bytes, no fewer and no more, and the value
/// is then the one they denote, least significant byte first.
#[verifier::external_body]
fn borsh_u32_from_slice(bytes: &[u8]) -> (value: Option<u32>)
    ensures
        value == (if bytes@.len() == 4 {
            Some(u32_from_le(bytes@))
        } else {
            None::<u32>
        }),
{
    <u32 as borsh::BorshDeserialize>::try_from_slice(bytes).ok()
}

/// `borsh`'s `to_vec` on `u32`. Assumed of it: writing into a vector cannot
/// fail, and the vector holds the four bytes of `x`, least significant byte
/// first.
#[verifier::external_body]
fn borsh_u32_to_vec(x: u32) -> (bytes: Option<Vec<u8>>)
    ensures
        bytes is Some,
        bytes->0@ == u32_to_le(x),
{
    borsh::to_vec(&x).ok()
}

} // verus!
