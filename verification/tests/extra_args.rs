use msghasher::error::HashError;
use msghasher::extra_args::{
    decode_extra_args_v1_v2, select_format, ExtraArgsFormat, EVM_EXTRA_ARGS_V1_TAG,
    EVM_EXTRA_ARGS_V2_TAG,
};
use msghasher::word::U256;

fn blob(tag: [u8; 4], words: &[[u8; 32]]) -> Vec<u8> {
    let mut b = tag.to_vec();
    for w in words {
        b.extend_from_slice(w);
    }
    b
}

fn word_of(n: u128) -> [u8; 32] {
    let mut w = [0u8; 32];
    w[16..].copy_from_slice(&n.to_be_bytes());
    w
}

#[test]
fn selectors_have_their_published_values() {
    assert_eq!(EVM_EXTRA_ARGS_V1_TAG, [0x97, 0xa6, 0x57, 0xc9]);
    assert_eq!(EVM_EXTRA_ARGS_V2_TAG, [0x18, 0x1d, 0xcf, 0x10]);
    assert_eq!(
        EVM_EXTRA_ARGS_V1_TAG[..],
        ethers::utils::keccak256("CCIP EVMExtraArgsV1")[..4]
    );
    assert_eq!(
        EVM_EXTRA_ARGS_V2_TAG[..],
        ethers::utils::keccak256("CCIP EVMExtraArgsV2")[..4]
    );
}

#[test]
fn format_is_selected_by_the_first_four_bytes() {
    assert_eq!(select_format(&[0x97, 0xa6, 0x57, 0xc9]), Some(ExtraArgsFormat::V1));
    assert_eq!(select_format(&[0x18, 0x1d, 0xcf, 0x10, 0xff]), Some(ExtraArgsFormat::V2));
    assert_eq!(select_format(&[0x97, 0xa6, 0x57]), None);
    assert_eq!(select_format(&[]), None);
    assert_eq!(select_format(&[0x97, 0xa6, 0x57, 0xc8]), None);
    assert_eq!(select_format(&[0x18, 0xa6, 0x57, 0xc9]), None);
}

#[test]
fn first_format_carries_the_gas_limit() {
    let b = blob(EVM_EXTRA_ARGS_V1_TAG, &[word_of(200_000)]);
    assert_eq!(decode_extra_args_v1_v2(&b), Ok(U256 { hi: 0, lo: 200_000 }));
}

#[test]
fn second_format_carries_the_gas_limit_and_a_flag() {
    let b = blob(EVM_EXTRA_ARGS_V2_TAG, &[word_of(200_000), word_of(0)]);
    assert_eq!(decode_extra_args_v1_v2(&b), Ok(U256 { hi: 0, lo: 200_000 }));
    let b = blob(EVM_EXTRA_ARGS_V2_TAG, &[word_of(200_000), word_of(1)]);
    assert_eq!(decode_extra_args_v1_v2(&b), Ok(U256 { hi: 0, lo: 200_000 }));
}

#[test]
fn both_formats_decode_one_gas_limit_alike() {
    for gas in [0u128, 1, 255, 256, 200_000, u64::MAX as u128, u128::MAX] {
        let v1 = blob(EVM_EXTRA_ARGS_V1_TAG, &[word_of(gas)]);
        let v2 = blob(EVM_EXTRA_ARGS_V2_TAG, &[word_of(gas), word_of(1)]);
        assert_eq!(decode_extra_args_v1_v2(&v1), Ok(U256 { hi: 0, lo: gas }));
        assert_eq!(decode_extra_args_v1_v2(&v1), decode_extra_args_v1_v2(&v2));
    }
}

#[test]
fn gas_limit_uses_all_256_bits() {
    let mut w = [0u8; 32];
    w[0] = 0x80;
    w[15] = 0x01;
    w[16] = 0x02;
    w[31] = 0x03;
    let expected = U256 { hi: (0x80u128 << 120) + 1, lo: (0x02u128 << 120) + 3 };
    assert_eq!(decode_extra_args_v1_v2(&blob(EVM_EXTRA_ARGS_V1_TAG, &[w])), Ok(expected));
    assert_eq!(
        decode_extra_args_v1_v2(&blob(EVM_EXTRA_ARGS_V2_TAG, &[[0xff; 32], word_of(0)])),
        Ok(U256 { hi: u128::MAX, lo: u128::MAX })
    );
}

#[test]
fn unknown_selector_is_unsupported() {
    let b = blob([0xde, 0xad, 0xbe, 0xef], &[word_of(200_000)]);
    assert_eq!(decode_extra_args_v1_v2(&b), Err(HashError::UnsupportedExtraArgsFormat));
}

#[test]
fn blob_shorter_than_a_selector_is_unsupported() {
    assert_eq!(decode_extra_args_v1_v2(&[]), Err(HashError::UnsupportedExtraArgsFormat));
    assert_eq!(
        decode_extra_args_v1_v2(&[0x97, 0xa6, 0x57]),
        Err(HashError::UnsupportedExtraArgsFormat)
    );
}

#[test]
fn wrong_length_is_malformed() {
    let good = blob(EVM_EXTRA_ARGS_V1_TAG, &[word_of(5)]);
    assert_eq!(decode_extra_args_v1_v2(&good[..4]), Err(HashError::MalformedExtraArgs));
    assert_eq!(decode_extra_args_v1_v2(&good[..35]), Err(HashError::MalformedExtraArgs));
    let mut long = good.clone();
    long.push(0);
    assert_eq!(decode_extra_args_v1_v2(&long), Err(HashError::MalformedExtraArgs));
    let v1_with_flag = blob(EVM_EXTRA_ARGS_V1_TAG, &[word_of(5), word_of(1)]);
    assert_eq!(decode_extra_args_v1_v2(&v1_with_flag), Err(HashError::MalformedExtraArgs));
    let v2_without_flag = blob(EVM_EXTRA_ARGS_V2_TAG, &[word_of(5)]);
    assert_eq!(decode_extra_args_v1_v2(&v2_without_flag), Err(HashError::MalformedExtraArgs));
    let v2_long = blob(EVM_EXTRA_ARGS_V2_TAG, &[word_of(5), word_of(1), word_of(0)]);
    assert_eq!(decode_extra_args_v1_v2(&v2_long), Err(HashError::MalformedExtraArgs));
}

#[test]
fn flag_that_is_no_boolean_is_malformed() {
    let b = blob(EVM_EXTRA_ARGS_V2_TAG, &[word_of(5), word_of(2)]);
    assert_eq!(decode_extra_args_v1_v2(&b), Err(HashError::MalformedExtraArgs));
    let mut high = [0u8; 32];
    high[0] = 1;
    let b = blob(EVM_EXTRA_ARGS_V2_TAG, &[word_of(5), high]);
    assert_eq!(decode_extra_args_v1_v2(&b), Err(HashError::MalformedExtraArgs));
    let mut both = word_of(1);
    both[15] = 1;
    let b = blob(EVM_EXTRA_ARGS_V2_TAG, &[word_of(5), both]);
    assert_eq!(decode_extra_args_v1_v2(&b), Err(HashError::MalformedExtraArgs));
}

#[test]
fn error_messages_tell_the_errors_apart() {
    assert_eq!(HashError::EncodingError.message(), "value exceeds the width of its field");
    assert_eq!(
        HashError::UnsupportedExtraArgsFormat.message(),
        "unsupported extra args format"
    );
    assert_eq!(HashError::MalformedExtraArgs.message(), "malformed extra args");
}
