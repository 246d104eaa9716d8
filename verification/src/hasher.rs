//! From a message to its commitment.

use vstd::prelude::*;
use crate::error::HashError;
use crate::extra_args::{decode_extra_args_v1_v2, gas_limit_of};
use crate::keccak::{keccak256, keccak256_digest};
use crate::message::{Message, MessageView};
use crate::preimage::{
    amounts_fit, encode_final_hash_preimage, encode_fixed_size_fields_hash_preimage,
    encode_metadata_hash_preimage, encode_token_amounts_hash_preimage, final_preimage,
    fixed_size_fields_preimage, metadata_preimage, narrow_token_amounts, token_amounts_preimage,
};

verus! {

/// The commitment over four hash inputs: each is digested, the digests are
/// laid out behind the leaf domain separator, and that layout is digested.
pub open spec fn composed(meta: Seq<u8>, fixed: Seq<u8>, data: Seq<u8>, tokens: Seq<u8>) -> [u8;
    32] {
    keccak256_digest(
        final_preimage(
            keccak256_digest(meta)@,
            keccak256_digest(fixed)@,
            keccak256_digest(data)@,
            keccak256_digest(tokens)@,
        ),
    )
}

/// The commitment of a message whose extra args carry `gas_limit`.
pub open spec fn commitment(m: MessageView, gas_limit: nat) -> [u8; 32] {
    composed(
        metadata_preimage(
            m.header.source_chain_selector,
            m.header.dest_chain_selector,
            m.header.on_ramp,
        ),
        fixed_size_fields_preimage(
            m.header.message_id,
            m.sender,
            m.receiver,
            m.header.sequence_number,
            gas_limit,
            m.header.nonce,
        ),
        m.data,
        token_amounts_preimage(m.token_amounts),
    )
}

/// What hashing a message gives: an encoding error where a token amount
/// needs more than 128 bits; else the error of the extra args, if they
/// carry no gas limit; else the commitment.
pub open spec fn message_hash(m: MessageView) -> Result<[u8; 32], HashError> {
    if !amounts_fit(m.token_amounts) {
        Err(HashError::EncodingError)
    } else {
        match gas_limit_of(m.extra_args) {
            Err(e) => Err(e),
            Ok(gas_limit) => Ok(commitment(m, gas_limit)),
        }
    }
}

/// Digests the four hash inputs and combines the digests into the
/// commitment.
pub fn compose_hash(meta: &[u8], fixed: &[u8], data: &[u8], tokens: &[u8]) -> (digest: [u8; 32])
    ensures
        digest == composed(meta@, fixed@, data@, tokens@),
{
    let packed = encode_final_hash_preimage(
        keccak256(meta),
        keccak256(fixed),
        keccak256(data),
        keccak256(tokens),
    );
    keccak256(packed.as_slice())
}

/// Hasher of messages in the first version of the commitment format. It
/// holds no state.
#[derive(Debug, Clone, Copy, PartialEq, Eq)]
pub struct MessageHasherV1;

impl MessageHasherV1 {
    /// The hasher.
    pub fn new() -> (hasher: Self)
        ensures
            hasher == MessageHasherV1,
    {
        MessageHasherV1
    }

    /// Computes the commitment of `msg`, or says why it has none.
    pub fn hash(&self, msg: Message) -> (r: Result<[u8; 32], HashError>)
        ensures
            r == message_hash(msg@),
    {
        let ramp_token_amounts = match narrow_token_amounts(&msg.token_amounts) {
            Ok(narrowed) => narrowed,
            Err(e) => {
                return Err(e);
            },
        };
        let encoded_ramp_token_amounts = encode_token_amounts_hash_preimage(ramp_token_amounts);
        let meta_data_hash_input = encode_metadata_hash_preimage(
            msg.header.source_chain_selector,
            msg.header.dest_chain_selector,
            msg.header.on_ramp.as_slice(),
        );
        let gas_limit = match decode_extra_args_v1_v2(msg.extra_args.as_slice()) {
            Ok(gas_limit) => gas_limit,
            Err(e) => {
                return Err(e);
            },
        };
        let fixed_size_fields_encoded = encode_fixed_size_fields_hash_preimage(
            msg.header.message_id,
            msg.sender.as_slice(),
            msg.receiver.as_slice(),
            msg.header.sequence_number,
            gas_limit,
            msg.header.nonce,
        );
        Ok(
            compose_hash(
                meta_data_hash_input.as_slice(),
                fixed_size_fields_encoded.as_slice(),
                msg.data.as_slice(),
                encoded_ramp_token_amounts.as_slice(),
            ),
        )
    }
}

} // verus!
