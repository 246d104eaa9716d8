//! The versioned extra-args blob and the gas limit it carries.
//!
//! A blob is a 4-byte format selector followed by the fields of that format,
//! one 32-byte word each. The first format holds the gas limit alone. The
//! second holds the gas limit and a boolean flag, which is the word 0 or 1.
//! Nothing may follow the last field. A blob of fewer than four bytes
//! selects no format.

use vstd::prelude::*;
use crate::error::HashError;
use crate::word::{be_value, read_word, two_pow_128, U256};

verus! {

/// Selector of the first extra-args format.
pub const EVM_EXTRA_ARGS_V1_TAG: [u8; 4] = [0x97, 0xa6, 0x57, 0xc9];

/// Selector of the second extra-args format.
pub const EVM_EXTRA_ARGS_V2_TAG: [u8; 4] = [0x18, 0x1d, 0xcf, 0x10];

/// The known extra-args formats.
#[derive(Debug, Clone, Copy, PartialEq, Eq)]
pub enum ExtraArgsFormat {
    V1,
    V2,
}

/// The format that the first four bytes of `blob` select, if any.
pub open spec fn selected_format(blob: Seq<u8>) -> Option<ExtraArgsFormat> {
    if blob.len() >= 4 && blob.subrange(0, 4) == EVM_EXTRA_ARGS_V1_TAG@ {
        Some(ExtraArgsFormat::V1)
    } else if blob.len() >= 4 && blob.subrange(0, 4) == EVM_EXTRA_ARGS_V2_TAG@ {
        Some(ExtraArgsFormat::V2)
    } else {
        None
    }
}

/// Whether `blob` has the shape of `format`.
pub open spec fn well_shaped(format: ExtraArgsFormat, blob: Seq<u8>) -> bool {
    match format {
        ExtraArgsFormat::V1 => blob.len() == 36,
        ExtraArgsFormat::V2 => blob.len() == 68 && be_value(blob.subrange(36, 68)) <= 1,
    }
}

/// The gas limit that `blob` carries, or why it carries none.
pub open spec fn gas_limit_of(blob: Seq<u8>) -> Result<nat, HashError> {
    match selected_format(blob) {
        None => Err(HashError::UnsupportedExtraArgsFormat),
        Some(format) => if well_shaped(format, blob) {
            Ok(be_value(blob.subrange(4, 36)))
        } else {
            Err(HashError::MalformedExtraArgs)
        },
    }
}

/// Whether `r` is the executable form of the outcome `expected`.
pub open spec fn gas_limit_is(r: Result<U256, HashError>, expected: Result<nat, HashError>) -> bool {
    match expected {
        Ok(g) => r is Ok && r->Ok_0@ == g,
        Err(e) => r == Err::<U256, HashError>(e),
    }
}

/// The format that `blob` selects, if any.
pub fn select_format(blob: &[u8]) -> (r: Option<ExtraArgsFormat>)
    ensures
        r == selected_format(blob@),
{
    if blob.len() < 4 {
        return None;
    }
    assert(blob@.subrange(0, 4) =~= seq![blob@[0], blob@[1], blob@[2], blob@[3]]);
    assert(EVM_EXTRA_ARGS_V1_TAG@ =~= seq![0x97u8, 0xa6u8, 0x57u8, 0xc9u8]);
    assert(EVM_EXTRA_ARGS_V2_TAG@ =~= seq![0x18u8, 0x1du8, 0xcfu8, 0x10u8]);
    if blob[0] == 0x97 && blob[1] == 0xa6 && blob[2] == 0x57 && blob[3] == 0xc9 {
        Some(ExtraArgsFormat::V1)
    } else if blob[0] == 0x18 && blob[1] == 0x1d && blob[2] == 0xcf && blob[3] == 0x10 {
        Some(ExtraArgsFormat::V2)
    } else {
        assert(blob@.subrange(0, 4)[0] == blob@[0]);
        assert(blob@.subrange(0, 4)[1] == blob@[1]);
        assert(blob@.subrange(0, 4)[2] == blob@[2]);
        assert(blob@.subrange(0, 4)[3] == blob@[3]);
        None
    }
}

/// Reads the gas limit out of an extra-args blob of either format.
pub fn decode_extra_args_v1_v2(extra_args: &[u8]) -> (r: Result<U256, HashError>)
    ensures
        gas_limit_is(r, gas_limit_of(extra_args@)),
{
    let n = extra_args.len();
    match select_format(extra_args) {
        None => Err(HashError::UnsupportedExtraArgsFormat),
        Some(ExtraArgsFormat::V1) => {
            if n != 36 {
                return Err(HashError::MalformedExtraArgs);
            }
            Ok(read_word(extra_args, 4))
        },
        Some(ExtraArgsFormat::V2) => {
            if n != 68 {
                return Err(HashError::MalformedExtraArgs);
            }
            let flag = read_word(extra_args, 36);
            if flag.hi != 0 || flag.lo > 1 {
                proof {
                    assert(flag.hi >= 1 ==> (flag.hi as nat) * two_pow_128() >= 2)
                        by (nonlinear_arith);
                }
                return Err(HashError::MalformedExtraArgs);
            }
            Ok(read_word(extra_args, 4))
        },
    }
}

} // verus!
