//! The byte preimages that are hashed: three built from the fields of a
//! message, and the final one built from four digests.
//!
//! The order of the fields within each preimage is fixed here and nowhere
//! else.

use vstd::prelude::*;
use crate::encoding::{
    abi_encode, field_views, token_views, tuple_encoding, Field, FieldView,
    InternalRampTokenAmount, TokenAmountView,
};
use crate::error::HashError;
use crate::message::{transfer_views, TokenAmountTransfer};
use crate::word::{append_bytes, two_pow_128, U256};

verus! {

/// Tag that marks a preimage as metadata of a message of this kind.
pub const ANY_2_EVM_MESSAGE_HASH: [u8; 32] = [
    0x24, 0x25, 0xb0, 0xb9, 0xf9, 0x05, 0x4c, 0x76, 0xff, 0x15, 0x1b, 0x0a, 0x17, 0x5b, 0x18, 0xf3,
    0x7a, 0x4a, 0x4e, 0x82, 0x01, 0x3a, 0x72, 0xe9, 0xf1, 0x5c, 0x9c, 0xaa, 0x09, 0x5e, 0xd2, 0x1f,
];

/// Domain separator of a leaf commitment.
pub const LEAF_DOMAIN_SEPARATOR: [u8; 32] = [
    0, 0, 0, 0, 0, 0, 0, 0, 0, 0, 0, 0, 0, 0, 0, 0,
    0, 0, 0, 0, 0, 0, 0, 0, 0, 0, 0, 0, 0, 0, 0, 0,
];

/// The token-amounts preimage: the array of token records as the only field.
pub open spec fn token_amounts_preimage(ts: Seq<TokenAmountView>) -> Seq<u8> {
    tuple_encoding(seq![FieldView::TokenArray(ts)])
}

/// The metadata preimage: the message-type tag, the two chain selectors and
/// the on-ramp address, in this order.
pub open spec fn metadata_preimage(
    source_chain_selector: nat,
    dest_chain_selector: nat,
    on_ramp: Seq<u8>,
) -> Seq<u8> {
    tuple_encoding(
        seq![
            FieldView::Fixed32(ANY_2_EVM_MESSAGE_HASH@),
            FieldView::Uint(source_chain_selector),
            FieldView::Uint(dest_chain_selector),
            FieldView::Bytes(on_ramp),
        ],
    )
}

/// The fixed-size-fields preimage: message id, sender, receiver, sequence
/// number, gas limit and nonce, in this order.
pub open spec fn fixed_size_fields_preimage(
    message_id: Seq<u8>,
    sender: Seq<u8>,
    receiver: Seq<u8>,
    sequence_number: nat,
    gas_limit: nat,
    nonce: nat,
) -> Seq<u8> {
    tuple_encoding(
        seq![
            FieldView::Fixed32(message_id),
            FieldView::Bytes(sender),
            FieldView::Bytes(receiver),
            FieldView::Uint(sequence_number),
            FieldView::Uint(gas_limit),
            FieldView::Uint(nonce),
        ],
    )
}

/// The final preimage: the leaf domain separator and the digests of the
/// metadata, of the fixed-size fields, of the payload and of the token
/// amounts, in this order.
pub open spec fn final_preimage(
    meta_digest: Seq<u8>,
    fixed_digest: Seq<u8>,
    data_digest: Seq<u8>,
    tokens_digest: Seq<u8>,
) -> Seq<u8> {
    tuple_encoding(
        seq![
            FieldView::Fixed32(LEAF_DOMAIN_SEPARATOR@),
            FieldView::Fixed32(meta_digest),
            FieldView::Fixed32(fixed_digest),
            FieldView::Fixed32(data_digest),
            FieldView::Fixed32(tokens_digest),
        ],
    )
}

/// Whether every amount in `ts` fits in 128 bits.
pub open spec fn amounts_fit(ts: Seq<TokenAmountView>) -> bool {
    forall|i: int| 0 <= i < ts.len() ==> (#[trigger] ts[i]).amount < two_pow_128()
}

/// A copy of `src`.
pub fn copy_bytes(src: &[u8]) -> (v: Vec<u8>)
    ensures
        v@ == src@,
{
    let mut v: Vec<u8> = Vec::new();
    append_bytes(&mut v, src);
    assert(v@ =~= src@);
    v
}

/// Narrows the amount of every transfer to 128 bits. Fails, with nothing
/// truncated, where one amount does not fit.
pub fn narrow_token_amounts(tokens: &Vec<TokenAmountTransfer>) -> (r: Result<
    Vec<InternalRampTokenAmount>,
    HashError,
>)
    ensures
        amounts_fit(transfer_views(tokens@)) ==> r is Ok && token_views(r->Ok_0@)
            == transfer_views(tokens@),
        !amounts_fit(transfer_views(tokens@)) ==> r == Err::<
            Vec<InternalRampTokenAmount>,
            HashError,
        >(HashError::EncodingError),
{
    let count = tokens.len();
    let ghost views = transfer_views(tokens@);
    let mut narrowed: Vec<InternalRampTokenAmount> = Vec::new();
    let mut i: usize = 0;
    while i < count
        invariant
            count == tokens@.len(),
            views == transfer_views(tokens@),
            i <= count,
            amounts_fit(views.take(i as int)),
            token_views(narrowed@) == views.take(i as int),
        decreases count - i,
    {
        let t = &tokens[i];
        match t.amount.narrow() {
            None => {
                assert(views[i as int].amount >= two_pow_128());
                return Err(HashError::EncodingError);
            },
            Some(amount) => {
                let record = InternalRampTokenAmount {
                    source_pool_address: copy_bytes(t.source_pool_address.as_slice()),
                    dest_token_address: copy_bytes(t.dest_token_address.as_slice()),
                    extra_data: copy_bytes(t.extra_data.as_slice()),
                    amount,
                };
                assert(record@ == views[i as int]);
                let ghost before = narrowed@;
                narrowed.push(record);
                assert forall|j: int| 0 <= j < i + 1 implies token_views(narrowed@)[j]
                    == views.take(i + 1)[j] by {
                    if j < i {
                        assert(token_views(before)[j] == views.take(i as int)[j]);
                        assert(narrowed@[j] == before[j]);
                    }
                }
                assert(token_views(narrowed@) =~= views.take(i + 1));
                assert forall|j: int| 0 <= j < views.take(i + 1).len() implies (
                #[trigger] views.take(i + 1)[j]).amount < two_pow_128() by {
                    if j < i {
                        assert(views.take(i as int)[j] == views[j]);
                    }
                }
            },
        }
        i = i + 1;
    }
    assert(views.take(count as int) =~= views);
    Ok(narrowed)
}

/// Builds the token-amounts preimage.
pub fn encode_token_amounts_hash_preimage(tokens: Vec<InternalRampTokenAmount>) -> (out: Vec<u8>)
    ensures
        out@ == token_amounts_preimage(token_views(tokens@)),
{
    let ghost views = token_views(tokens@);
    let mut fields: Vec<Field> = Vec::new();
    fields.push(Field::TokenArray(tokens));
    assert(field_views(fields@) =~= seq![FieldView::TokenArray(views)]);
    abi_encode(&fields)
}

/// Builds the metadata preimage.
pub fn encode_metadata_hash_preimage(
    source_chain_selector: u64,
    dest_chain_selector: u64,
    on_ramp: &[u8],
) -> (out: Vec<u8>)
    ensures
        out@ == metadata_preimage(
            source_chain_selector as nat,
            dest_chain_selector as nat,
            on_ramp@,
        ),
{
    let mut fields: Vec<Field> = Vec::new();
    fields.push(Field::Fixed32(ANY_2_EVM_MESSAGE_HASH));
    fields.push(Field::Uint64(source_chain_selector));
    fields.push(Field::Uint64(dest_chain_selector));
    fields.push(Field::Bytes(copy_bytes(on_ramp)));
    assert(field_views(fields@) =~= seq![
        FieldView::Fixed32(ANY_2_EVM_MESSAGE_HASH@),
        FieldView::Uint(source_chain_selector as nat),
        FieldView::Uint(dest_chain_selector as nat),
        FieldView::Bytes(on_ramp@),
    ]);
    abi_encode(&fields)
}

/// Builds the fixed-size-fields preimage.
pub fn encode_fixed_size_fields_hash_preimage(
    message_id: [u8; 32],
    sender: &[u8],
    receiver: &[u8],
    sequence_number: u64,
    gas_limit: U256,
    nonce: u64,
) -> (out: Vec<u8>)
    ensures
        out@ == fixed_size_fields_preimage(
            message_id@,
            sender@,
            receiver@,
            sequence_number as nat,
            gas_limit@,
            nonce as nat,
        ),
{
    let mut fields: Vec<Field> = Vec::new();
    fields.push(Field::Fixed32(message_id));
    fields.push(Field::Bytes(copy_bytes(sender)));
    fields.push(Field::Bytes(copy_bytes(receiver)));
    fields.push(Field::Uint64(sequence_number));
    fields.push(Field::Uint256(gas_limit));
    fields.push(Field::Uint64(nonce));
    assert(field_views(fields@) =~= seq![
        FieldView::Fixed32(message_id@),
        FieldView::Bytes(sender@),
        FieldView::Bytes(receiver@),
        FieldView::Uint(sequence_number as nat),
        FieldView::Uint(gas_limit@),
        FieldView::Uint(nonce as nat),
    ]);
    abi_encode(&fields)
}

/// Builds the final preimage from the four digests.
pub fn encode_final_hash_preimage(
    meta_digest: [u8; 32],
    fixed_digest: [u8; 32],
    data_digest: [u8; 32],
    tokens_digest: [u8; 32],
) -> (out: Vec<u8>)
    ensures
        out@ == final_preimage(meta_digest@, fixed_digest@, data_digest@, tokens_digest@),
{
    let mut fields: Vec<Field> = Vec::new();
    fields.push(Field::Fixed32(LEAF_DOMAIN_SEPARATOR));
    fields.push(Field::Fixed32(meta_digest));
    fields.push(Field::Fixed32(fixed_digest));
    fields.push(Field::Fixed32(data_digest));
    fields.push(Field::Fixed32(tokens_digest));
    assert(field_views(fields@) =~= seq![
        FieldView::Fixed32(LEAF_DOMAIN_SEPARATOR@),
        FieldView::Fixed32(meta_digest@),
        FieldView::Fixed32(fixed_digest@),
        FieldView::Fixed32(data_digest@),
        FieldView::Fixed32(tokens_digest@),
    ]);
    abi_encode(&fields)
}

} // verus!
