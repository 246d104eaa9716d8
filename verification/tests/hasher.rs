use ethers::abi::{encode, Token};
use ethers::types::U256 as EthU256;
use ethers::utils::keccak256;
use msghasher::encoding::{abi_encode, Field, InternalRampTokenAmount};
use msghasher::error::HashError;
use msghasher::message::{Message, MessageHeader, TokenAmountTransfer};
use msghasher::hasher::{compose_hash, MessageHasherV1};
use msghasher::preimage::{
    encode_final_hash_preimage, encode_fixed_size_fields_hash_preimage,
    encode_metadata_hash_preimage, encode_token_amounts_hash_preimage, narrow_token_amounts,
    ANY_2_EVM_MESSAGE_HASH, LEAF_DOMAIN_SEPARATOR,
};
use msghasher::word::U256;

fn word(n: u128) -> Vec<u8> {
    let mut w = vec![0u8; 16];
    w.extend_from_slice(&n.to_be_bytes());
    w
}

fn v1_extra_args(gas_limit: u128) -> Vec<u8> {
    let mut blob = vec![0x97, 0xa6, 0x57, 0xc9];
    blob.extend_from_slice(&word(gas_limit));
    blob
}

fn v2_extra_args(gas_limit: u128, out_of_order: bool) -> Vec<u8> {
    let mut blob = vec![0x18, 0x1d, 0xcf, 0x10];
    blob.extend_from_slice(&word(gas_limit));
    blob.extend_from_slice(&word(if out_of_order { 1 } else { 0 }));
    blob
}

fn reference_message() -> Message {
    let mut message_id = [0u8; 32];
    message_id[31] = 0x01;
    Message {
        header: MessageHeader {
            message_id,
            source_chain_selector: 1,
            dest_chain_selector: 2,
            on_ramp: vec![0x33; 20],
            sequence_number: 1,
            nonce: 1,
        },
        sender: vec![0x11; 20],
        receiver: vec![0x22; 20],
        data: Vec::new(),
        token_amounts: vec![TokenAmountTransfer {
            source_pool_address: vec![0x44; 20],
            dest_token_address: vec![0x55; 20],
            extra_data: Vec::new(),
            amount: U256 { hi: 0, lo: 1000 },
        }],
        extra_args: v1_extra_args(200_000),
    }
}

fn second_transfer() -> TokenAmountTransfer {
    TokenAmountTransfer {
        source_pool_address: vec![0x66; 32],
        dest_token_address: vec![0x77; 33],
        extra_data: vec![0x01, 0x02, 0x03],
        amount: U256 { hi: 0, lo: u128::MAX },
    }
}

fn eth_u256(v: &U256) -> EthU256 {
    (EthU256::from(v.hi) << 128) + EthU256::from(v.lo)
}

fn token_record(t: &TokenAmountTransfer) -> Token {
    Token::Tuple(vec![
        Token::Bytes(t.source_pool_address.clone()),
        Token::Bytes(t.dest_token_address.clone()),
        Token::Bytes(t.extra_data.clone()),
        Token::Uint(eth_u256(&t.amount)),
    ])
}

/// The commitment of a message computed with the packer of `ethers` alone.
fn commitment_by_packer(msg: &Message, gas_limit: u128) -> [u8; 32] {
    let tokens = encode(&[Token::Array(msg.token_amounts.iter().map(token_record).collect())]);
    let meta = encode(&[
        Token::FixedBytes(keccak256("Any2EVMMessageHashV1").to_vec()),
        Token::Uint(EthU256::from(msg.header.source_chain_selector)),
        Token::Uint(EthU256::from(msg.header.dest_chain_selector)),
        Token::Bytes(msg.header.on_ramp.clone()),
    ]);
    let fixed = encode(&[
        Token::FixedBytes(msg.header.message_id.to_vec()),
        Token::Bytes(msg.sender.clone()),
        Token::Bytes(msg.receiver.clone()),
        Token::Uint(EthU256::from(msg.header.sequence_number)),
        Token::Uint(EthU256::from(gas_limit)),
        Token::Uint(EthU256::from(msg.header.nonce)),
    ]);
    let packed = encode(&[
        Token::FixedBytes(vec![0u8; 32]),
        Token::FixedBytes(keccak256(&meta).to_vec()),
        Token::FixedBytes(keccak256(&fixed).to_vec()),
        Token::FixedBytes(keccak256(&msg.data).to_vec()),
        Token::FixedBytes(keccak256(&tokens).to_vec()),
    ]);
    keccak256(&packed)
}

#[test]
fn golden_vector_of_the_reference_message() {
    let expected: [u8; 32] = [
        0x59, 0xb8, 0x42, 0xf7, 0xc0, 0x56, 0x53, 0xb3, 0xc0, 0xcd, 0xf2, 0x23, 0x42, 0x8d, 0x80,
        0x32, 0x3f, 0xc3, 0x3e, 0x83, 0x5f, 0x2a, 0xc8, 0xb3, 0x44, 0x47, 0xc9, 0x21, 0x62, 0x38,
        0x76, 0x98,
    ];
    let hasher = MessageHasherV1::new();
    assert_eq!(hasher.hash(reference_message()), Ok(expected));
}

#[test]
fn reference_message_matches_the_packer() {
    let msg = reference_message();
    let expected = commitment_by_packer(&msg, 200_000);
    assert_eq!(MessageHasherV1::new().hash(msg), Ok(expected));
}

#[test]
fn message_with_payload_and_two_transfers_matches_the_packer() {
    let mut msg = reference_message();
    msg.data = vec![0xab; 70];
    msg.token_amounts.push(second_transfer());
    msg.extra_args = v2_extra_args(3_000_000, true);
    let expected = commitment_by_packer(&msg, 3_000_000);
    assert_eq!(MessageHasherV1::new().hash(msg), Ok(expected));
}

#[test]
fn message_without_transfers_matches_the_packer() {
    let mut msg = reference_message();
    msg.token_amounts.clear();
    let expected = commitment_by_packer(&msg, 200_000);
    assert_eq!(MessageHasherV1::new().hash(msg), Ok(expected));
}

#[test]
fn hashing_twice_gives_the_same_commitment() {
    let hasher = MessageHasherV1::new();
    let first = hasher.hash(reference_message());
    let second = hasher.hash(reference_message());
    assert!(first.is_ok());
    assert_eq!(first, second);
    assert_eq!(MessageHasherV1::new().hash(reference_message()), first);
}

#[test]
fn incrementing_the_sequence_number_changes_the_commitment() {
    let hasher = MessageHasherV1::new();
    let base = hasher.hash(reference_message()).unwrap();
    let mut msg = reference_message();
    msg.header.sequence_number += 1;
    assert_ne!(hasher.hash(msg).unwrap(), base);
}

#[test]
fn changing_any_hashed_field_changes_the_commitment() {
    let hasher = MessageHasherV1::new();
    let base = hasher.hash(reference_message()).unwrap();
    let mut variants: Vec<Message> = Vec::new();
    let mut m = reference_message();
    m.header.message_id[0] = 1;
    variants.push(m);
    let mut m = reference_message();
    m.header.source_chain_selector = 3;
    variants.push(m);
    let mut m = reference_message();
    m.header.dest_chain_selector = 3;
    variants.push(m);
    let mut m = reference_message();
    m.header.on_ramp.push(0);
    variants.push(m);
    let mut m = reference_message();
    m.header.nonce = 2;
    variants.push(m);
    let mut m = reference_message();
    m.sender[0] = 0x12;
    variants.push(m);
    let mut m = reference_message();
    m.receiver = vec![0x22; 21];
    variants.push(m);
    let mut m = reference_message();
    m.data = vec![0];
    variants.push(m);
    let mut m = reference_message();
    m.token_amounts[0].amount = U256 { hi: 0, lo: 1001 };
    variants.push(m);
    let mut m = reference_message();
    m.token_amounts[0].extra_data = vec![0];
    variants.push(m);
    let mut m = reference_message();
    m.extra_args = v1_extra_args(200_001);
    variants.push(m);
    let mut seen = vec![base];
    for v in variants {
        let h = hasher.hash(v).unwrap();
        assert!(!seen.contains(&h));
        seen.push(h);
    }
}

#[test]
fn swapping_two_transfers_changes_the_commitment() {
    let hasher = MessageHasherV1::new();
    let mut msg = reference_message();
    msg.token_amounts.push(second_transfer());
    let mut swapped = msg.clone();
    swapped.token_amounts.swap(0, 1);
    assert_ne!(hasher.hash(msg).unwrap(), hasher.hash(swapped).unwrap());
}

#[test]
fn amount_of_two_to_the_128_is_rejected() {
    let mut msg = reference_message();
    msg.token_amounts[0].amount = U256 { hi: 1, lo: 0 };
    assert_eq!(MessageHasherV1::new().hash(msg), Err(HashError::EncodingError));
}

#[test]
fn largest_128_bit_amount_is_accepted() {
    let mut msg = reference_message();
    msg.token_amounts[0].amount = U256 { hi: 0, lo: u128::MAX };
    let expected = commitment_by_packer(&msg, 200_000);
    assert_eq!(MessageHasherV1::new().hash(msg), Ok(expected));
}

#[test]
fn oversized_amount_wins_over_bad_extra_args() {
    let mut msg = reference_message();
    msg.token_amounts.push(second_transfer());
    msg.token_amounts[1].amount = U256 { hi: u128::MAX, lo: 5 };
    msg.extra_args = vec![0xde, 0xad, 0xbe, 0xef];
    assert_eq!(MessageHasherV1::new().hash(msg), Err(HashError::EncodingError));
}

#[test]
fn both_formats_with_one_gas_limit_give_one_commitment() {
    let hasher = MessageHasherV1::new();
    let v1 = hasher.hash(reference_message()).unwrap();
    let mut msg = reference_message();
    msg.extra_args = v2_extra_args(200_000, false);
    assert_eq!(hasher.hash(msg).unwrap(), v1);
    let mut msg = reference_message();
    msg.extra_args = v2_extra_args(200_000, true);
    assert_eq!(hasher.hash(msg).unwrap(), v1);
}

#[test]
fn unknown_selector_is_rejected() {
    let mut msg = reference_message();
    msg.extra_args[0] = 0x98;
    assert_eq!(
        MessageHasherV1::new().hash(msg),
        Err(HashError::UnsupportedExtraArgsFormat)
    );
}

#[test]
fn malformed_extra_args_are_rejected() {
    let mut msg = reference_message();
    msg.extra_args.push(0);
    assert_eq!(MessageHasherV1::new().hash(msg), Err(HashError::MalformedExtraArgs));
}

#[test]
fn message_type_tag_is_the_digest_of_its_name() {
    assert_eq!(ANY_2_EVM_MESSAGE_HASH, keccak256("Any2EVMMessageHashV1"));
    assert_eq!(LEAF_DOMAIN_SEPARATOR, [0u8; 32]);
}

#[test]
fn compose_hash_digests_each_input_and_the_layout() {
    let meta = vec![1u8, 2, 3];
    let fixed = vec![4u8; 40];
    let data: Vec<u8> = Vec::new();
    let tokens = vec![9u8; 64];
    let mut packed = vec![0u8; 32];
    packed.extend_from_slice(&keccak256(&meta));
    packed.extend_from_slice(&keccak256(&fixed));
    packed.extend_from_slice(&keccak256(&data));
    packed.extend_from_slice(&keccak256(&tokens));
    let expected = keccak256(&packed);
    assert_eq!(compose_hash(&meta, &fixed, &data, &tokens), expected);
    assert_eq!(
        hex(&compose_hash(&[], &[], &[], &[])),
        hex(&keccak256(
            [vec![0u8; 32], keccak256([]).repeat(4)].concat()
        ))
    );
}

fn hex(bytes: &[u8]) -> String {
    bytes.iter().map(|b| format!("{:02x}", b)).collect()
}

#[test]
fn digest_of_the_empty_payload_is_the_known_keccak_value() {
    let packed = encode_final_hash_preimage([0u8; 32], [0u8; 32], keccak256([]), [0u8; 32]);
    assert_eq!(
        hex(&packed[96..128]),
        "c5d2460186f7233c927e7db2dcc703c0e500b653ca82273b7bfad8045d85a470"
    );
}

#[test]
fn final_preimage_is_the_separator_and_the_four_digests() {
    let packed = encode_final_hash_preimage([1u8; 32], [2u8; 32], [3u8; 32], [4u8; 32]);
    let mut expected = vec![0u8; 32];
    expected.extend_from_slice(&[1u8; 32]);
    expected.extend_from_slice(&[2u8; 32]);
    expected.extend_from_slice(&[3u8; 32]);
    expected.extend_from_slice(&[4u8; 32]);
    assert_eq!(packed, expected);
}

#[test]
fn metadata_preimage_has_the_exact_layout() {
    let out = encode_metadata_hash_preimage(1, 2, &[0x33; 20]);
    let mut expected = ANY_2_EVM_MESSAGE_HASH.to_vec();
    expected.extend_from_slice(&word(1));
    expected.extend_from_slice(&word(2));
    expected.extend_from_slice(&word(128));
    expected.extend_from_slice(&word(20));
    expected.extend_from_slice(&[0x33; 20]);
    expected.extend_from_slice(&[0u8; 12]);
    assert_eq!(out, expected);
}

#[test]
fn fixed_size_fields_preimage_has_the_exact_layout() {
    let mut id = [0u8; 32];
    id[31] = 1;
    let out = encode_fixed_size_fields_hash_preimage(
        id,
        &[0x11; 20],
        &[0x22; 33],
        7,
        U256 { hi: 1, lo: 200_000 },
        9,
    );
    let mut expected = id.to_vec();
    expected.extend_from_slice(&word(192));
    expected.extend_from_slice(&word(256));
    expected.extend_from_slice(&word(7));
    expected.extend_from_slice(&1u128.to_be_bytes());
    expected.extend_from_slice(&200_000u128.to_be_bytes());
    expected.extend_from_slice(&word(9));
    expected.extend_from_slice(&word(20));
    expected.extend_from_slice(&[0x11; 20]);
    expected.extend_from_slice(&[0u8; 12]);
    expected.extend_from_slice(&word(33));
    expected.extend_from_slice(&[0x22; 33]);
    expected.extend_from_slice(&[0u8; 31]);
    assert_eq!(out, expected);
}

#[test]
fn token_amounts_preimage_has_the_exact_layout() {
    let narrowed = narrow_token_amounts(&reference_message().token_amounts).unwrap();
    let out = encode_token_amounts_hash_preimage(narrowed);
    let mut expected = word(32);
    expected.extend_from_slice(&word(1));
    expected.extend_from_slice(&word(32));
    expected.extend_from_slice(&word(128));
    expected.extend_from_slice(&word(192));
    expected.extend_from_slice(&word(256));
    expected.extend_from_slice(&word(1000));
    expected.extend_from_slice(&word(20));
    expected.extend_from_slice(&[0x44; 20]);
    expected.extend_from_slice(&[0u8; 12]);
    expected.extend_from_slice(&word(20));
    expected.extend_from_slice(&[0x55; 20]);
    expected.extend_from_slice(&[0u8; 12]);
    expected.extend_from_slice(&word(0));
    assert_eq!(out.len(), 384);
    assert_eq!(out, expected);
}

#[test]
fn empty_token_array_is_an_offset_and_a_zero_count() {
    let out = encode_token_amounts_hash_preimage(Vec::new());
    let mut expected = word(32);
    expected.extend_from_slice(&word(0));
    assert_eq!(out, expected);
}

#[test]
fn narrowing_keeps_order_and_content() {
    let transfers = vec![second_transfer(), reference_message().token_amounts[0].clone()];
    let narrowed = narrow_token_amounts(&transfers).unwrap();
    assert_eq!(narrowed.len(), 2);
    assert_eq!(
        narrowed[0],
        InternalRampTokenAmount {
            source_pool_address: vec![0x66; 32],
            dest_token_address: vec![0x77; 33],
            extra_data: vec![1, 2, 3],
            amount: u128::MAX,
        }
    );
    assert_eq!(narrowed[1].amount, 1000);
    assert_eq!(narrowed[1].source_pool_address, vec![0x44; 20]);
}

#[test]
fn narrowing_fails_on_the_first_oversized_amount() {
    let mut transfers = vec![second_transfer(), second_transfer()];
    transfers[1].amount = U256 { hi: 1, lo: 0 };
    assert_eq!(narrow_token_amounts(&transfers), Err(HashError::EncodingError));
}

#[test]
fn mixed_tuple_matches_the_packer() {
    let lengths = [0usize, 1, 31, 32, 33, 64, 100];
    for (k, len) in lengths.iter().enumerate() {
        let bytes: Vec<u8> = (0..*len).map(|i| (i + k) as u8).collect();
        let records: Vec<InternalRampTokenAmount> = (0..k)
            .map(|j| InternalRampTokenAmount {
                source_pool_address: bytes[..len / 2].to_vec(),
                dest_token_address: bytes.clone(),
                extra_data: vec![j as u8; j * 17],
                amount: (j as u128) << 100,
            })
            .collect();
        let fields = vec![
            Field::Bytes(bytes.clone()),
            Field::Uint64(u64::MAX),
            Field::TokenArray(records.clone()),
            Field::Fixed32([k as u8; 32]),
            Field::Uint128(u128::MAX),
            Field::Bytes(Vec::new()),
            Field::Uint256(U256 { hi: u128::MAX, lo: 12345 }),
        ];
        let expected = encode(&[
            Token::Bytes(bytes.clone()),
            Token::Uint(EthU256::from(u64::MAX)),
            Token::Array(
                records
                    .iter()
                    .map(|r| {
                        Token::Tuple(vec![
                            Token::Bytes(r.source_pool_address.clone()),
                            Token::Bytes(r.dest_token_address.clone()),
                            Token::Bytes(r.extra_data.clone()),
                            Token::Uint(EthU256::from(r.amount)),
                        ])
                    })
                    .collect(),
            ),
            Token::FixedBytes(vec![k as u8; 32]),
            Token::Uint(EthU256::from(u128::MAX)),
            Token::Bytes(Vec::new()),
            Token::Uint((EthU256::from(u128::MAX) << 128) + EthU256::from(12345u64)),
        ]);
        assert_eq!(abi_encode(&fields), expected);
    }
}

#[test]
fn empty_tuple_encodes_to_nothing() {
    assert_eq!(abi_encode(&Vec::new()), Vec::<u8>::new());
}

#[test]
fn uint128_field_rejects_what_does_not_fit() {
    assert_eq!(Field::uint128(U256 { hi: 0, lo: 7 }), Ok(Field::Uint128(7)));
    assert_eq!(
        Field::uint128(U256 { hi: 0, lo: u128::MAX }),
        Ok(Field::Uint128(u128::MAX))
    );
    assert_eq!(Field::uint128(U256 { hi: 1, lo: 0 }), Err(HashError::EncodingError));
}

#[test]
fn uint64_field_rejects_what_does_not_fit() {
    assert_eq!(Field::uint64(U256 { hi: 0, lo: 0 }), Ok(Field::Uint64(0)));
    assert_eq!(
        Field::uint64(U256 { hi: 0, lo: u64::MAX as u128 }),
        Ok(Field::Uint64(u64::MAX))
    );
    assert_eq!(
        Field::uint64(U256 { hi: 0, lo: u64::MAX as u128 + 1 }),
        Err(HashError::EncodingError)
    );
    assert_eq!(Field::uint64(U256 { hi: 1, lo: 0 }), Err(HashError::EncodingError));
}

#[test]
fn fixed32_field_takes_exactly_32_bytes() {
    let bytes: Vec<u8> = (1u8..=32).collect();
    let mut expected = [0u8; 32];
    expected.copy_from_slice(&bytes);
    assert_eq!(Field::fixed32(&bytes), Ok(Field::Fixed32(expected)));
    assert_eq!(Field::fixed32(&bytes[..31]), Err(HashError::EncodingError));
    assert_eq!(Field::fixed32(&[0u8; 33]), Err(HashError::EncodingError));
    assert_eq!(Field::fixed32(&[]), Err(HashError::EncodingError));
}
