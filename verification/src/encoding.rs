//! The canonical tuple encoding of typed values.
//!
//! A tuple is laid out as a head of one 32-byte word per field followed by
//! the tails of its dynamic fields. A static field (a fixed 32-byte string or
//! an unsigned integer) has its value as head word and no tail. A dynamic
//! field (a byte string or an array of token records) has as head word the
//! offset of its tail from the start of the tuple.

use vstd::prelude::*;
use crate::error::HashError;
use crate::word::{
    append_bytes, append_zeros, push_word, push_word_u128, two_pow_128, word, zeros, U256,
};

verus! {

/// Number of zero bytes that fill a byte string of length `len` up to a
/// whole number of words.
pub open spec fn padding(len: nat) -> nat {
    ((32 - len % 32) % 32) as nat
}

/// A byte string as a dynamic value: its length word, its bytes, and zero
/// bytes up to the next word boundary.
pub open spec fn dynamic_bytes(b: Seq<u8>) -> Seq<u8> {
    word(b.len()) + b + zeros(padding(b.len()))
}

/// What one token transfer record is, as mathematics.
pub struct TokenAmountView {
    pub source_pool_address: Seq<u8>,
    pub dest_token_address: Seq<u8>,
    pub extra_data: Seq<u8>,
    pub amount: nat,
}

/// One token transfer with its amount narrowed to 128 bits, ready to encode.
#[derive(Debug, Clone, PartialEq, Eq)]
pub struct InternalRampTokenAmount {
    pub source_pool_address: Vec<u8>,
    pub dest_token_address: Vec<u8>,
    pub extra_data: Vec<u8>,
    pub amount: u128,
}

impl View for InternalRampTokenAmount {
    type V = TokenAmountView;

    open spec fn view(&self) -> TokenAmountView {
        TokenAmountView {
            source_pool_address: self.source_pool_address@,
            dest_token_address: self.dest_token_address@,
            extra_data: self.extra_data@,
            amount: self.amount as nat,
        }
    }
}

/// The encoding of one token record: three offsets and the amount as head,
/// then the three byte strings.
pub open spec fn token_encoding(t: TokenAmountView) -> Seq<u8> {
    let pool = dynamic_bytes(t.source_pool_address);
    let token = dynamic_bytes(t.dest_token_address);
    let extra = dynamic_bytes(t.extra_data);
    word(128) + word(128 + pool.len()) + word(128 + pool.len() + token.len()) + word(t.amount)
        + pool + token + extra
}

/// The encodings of the records of `ts`, one after the other.
pub open spec fn element_tails(ts: Seq<TokenAmountView>) -> Seq<u8>
    decreases ts.len(),
{
    if ts.len() == 0 {
        Seq::empty()
    } else {
        element_tails(ts.drop_last()) + token_encoding(ts.last())
    }
}

/// The offset words of the records of `ts` within an array of `count`
/// records: each is counted from the first offset word.
pub open spec fn element_heads(ts: Seq<TokenAmountView>, count: nat) -> Seq<u8>
    decreases ts.len(),
{
    if ts.len() == 0 {
        Seq::empty()
    } else {
        element_heads(ts.drop_last(), count) + word(
            32 * count + element_tails(ts.drop_last()).len(),
        )
    }
}

/// An array of token records as a dynamic value: the number of records, the
/// offset of each, and the records in order.
pub open spec fn token_array_encoding(ts: Seq<TokenAmountView>) -> Seq<u8> {
    word(ts.len()) + element_heads(ts, ts.len()) + element_tails(ts)
}

/// The views of a sequence of token records, in order.
pub open spec fn token_views(ts: Seq<InternalRampTokenAmount>) -> Seq<TokenAmountView> {
    ts.map_values(|t: InternalRampTokenAmount| t@)
}

/// What a typed value is, as mathematics.
pub enum FieldView {
    /// A string of exactly 32 bytes.
    Fixed32(Seq<u8>),
    /// An unsigned integer of any declared width.
    Uint(nat),
    /// A byte string of any length.
    Bytes(Seq<u8>),
    /// An array of token records.
    TokenArray(Seq<TokenAmountView>),
}

/// A typed value. The type of each variant bounds what it can hold, so a
/// value that exists fits its declared width.
#[derive(Debug, Clone, PartialEq, Eq)]
pub enum Field {
    Fixed32([u8; 32]),
    Uint64(u64),
    Uint128(u128),
    Uint256(U256),
    Bytes(Vec<u8>),
    TokenArray(Vec<InternalRampTokenAmount>),
}

impl View for Field {
    type V = FieldView;

    open spec fn view(&self) -> FieldView {
        match *self {
            Field::Fixed32(w) => FieldView::Fixed32(w@),
            Field::Uint64(x) => FieldView::Uint(x as nat),
            Field::Uint128(x) => FieldView::Uint(x as nat),
            Field::Uint256(x) => FieldView::Uint(x@),
            Field::Bytes(b) => FieldView::Bytes(b@),
            Field::TokenArray(ts) => FieldView::TokenArray(token_views(ts@)),
        }
    }
}

/// The views of a sequence of typed values, in order.
pub open spec fn field_views(fs: Seq<Field>) -> Seq<FieldView> {
    fs.map_values(|f: Field| f@)
}

/// Whether the field has a tail.
pub open spec fn is_dynamic(f: FieldView) -> bool {
    f is Bytes || f is TokenArray
}

/// The tail of a field: empty for a static field.
pub open spec fn field_tail(f: FieldView) -> Seq<u8> {
    match f {
        FieldView::Fixed32(_) => Seq::empty(),
        FieldView::Uint(_) => Seq::empty(),
        FieldView::Bytes(b) => dynamic_bytes(b),
        FieldView::TokenArray(ts) => token_array_encoding(ts),
    }
}

/// The head word of a field whose tail, if it has one, starts at `offset`.
pub open spec fn field_head(f: FieldView, offset: nat) -> Seq<u8> {
    match f {
        FieldView::Fixed32(w) => w,
        FieldView::Uint(n) => word(n),
        FieldView::Bytes(_) => word(offset),
        FieldView::TokenArray(_) => word(offset),
    }
}

/// The tails of `fs`, one after the other.
pub open spec fn tails(fs: Seq<FieldView>) -> Seq<u8>
    decreases fs.len(),
{
    if fs.len() == 0 {
        Seq::empty()
    } else {
        tails(fs.drop_last()) + field_tail(fs.last())
    }
}

/// The head words of `fs`, where the first tail starts at offset `base`.
pub open spec fn heads(fs: Seq<FieldView>, base: nat) -> Seq<u8>
    decreases fs.len(),
{
    if fs.len() == 0 {
        Seq::empty()
    } else {
        heads(fs.drop_last(), base) + field_head(fs.last(), base + tails(fs.drop_last()).len())
    }
}

/// The canonical encoding of the tuple `fs`.
pub open spec fn tuple_encoding(fs: Seq<FieldView>) -> Seq<u8> {
    heads(fs, 32 * fs.len()) + tails(fs)
}

impl Field {
    /// A fixed 32-byte field holding `bytes`; fails where `bytes` is not
    /// exactly 32 bytes long.
    pub fn fixed32(bytes: &[u8]) -> (r: Result<Field, HashError>)
        ensures
            bytes@.len() == 32 ==> r is Ok && r->Ok_0@ == FieldView::Fixed32(bytes@),
            bytes@.len() != 32 ==> r == Err::<Field, HashError>(HashError::EncodingError),
    {
        if bytes.len() != 32 {
            return Err(HashError::EncodingError);
        }
        let mut w: [u8; 32] = [0u8; 32];
        let mut i: usize = 0;
        while i < 32
            invariant
                i <= 32,
                bytes@.len() == 32,
                w@.subrange(0, i as int) == bytes@.subrange(0, i as int),
            decreases 32 - i,
        {
            w[i] = bytes[i];
            assert(w@.subrange(0, i + 1) =~= bytes@.subrange(0, i as int).push(bytes@[i as int]));
            assert(bytes@.subrange(0, i + 1) =~= bytes@.subrange(0, i as int).push(
                bytes@[i as int],
            ));
            i = i + 1;
        }
        assert(w@ =~= w@.subrange(0, 32));
        assert(bytes@ =~= bytes@.subrange(0, 32));
        Ok(Field::Fixed32(w))
    }

    /// A 64-bit unsigned field holding `value`; fails where `value` needs
    /// more than 64 bits.
    pub fn uint64(value: U256) -> (r: Result<Field, HashError>)
        ensures
            value@ <= u64::MAX ==> r == Ok::<Field, HashError>(Field::Uint64(value@ as u64)),
            value@ > u64::MAX ==> r == Err::<Field, HashError>(HashError::EncodingError),
    {
        match value.narrow() {
            Some(x) => {
                if x <= u64::MAX as u128 {
                    Ok(Field::Uint64(x as u64))
                } else {
                    Err(HashError::EncodingError)
                }
            },
            None => Err(HashError::EncodingError),
        }
    }

    /// A 128-bit unsigned field holding `value`; fails where `value` needs
    /// more than 128 bits.
    pub fn uint128(value: U256) -> (r: Result<Field, HashError>)
        ensures
            value@ < two_pow_128() ==> r == Ok::<Field, HashError>(
                Field::Uint128(value@ as u128),
            ),
            value@ >= two_pow_128() ==> r == Err::<Field, HashError>(HashError::EncodingError),
    {
        match value.narrow() {
            Some(x) => Ok(Field::Uint128(x)),
            None => Err(HashError::EncodingError),
        }
    }
}

/// Appends `b` as a dynamic value to `out`.
pub fn push_dynamic_bytes(out: &mut Vec<u8>, b: &[u8])
    ensures
        final(out)@ == old(out)@ + dynamic_bytes(b@),
{
    let n = b.len();
    push_word_u128(out, n as u128);
    append_bytes(out, b);
    append_zeros(out, (32 - n % 32) % 32);
    assert(out@ =~= old(out)@ + dynamic_bytes(b@));
}

/// Appends the encoding of one token record to `out`.
pub fn push_token(out: &mut Vec<u8>, t: &InternalRampTokenAmount)
    ensures
        final(out)@ == old(out)@ + token_encoding(t@),
{
    let mut tail: Vec<u8> = Vec::new();
    push_dynamic_bytes(&mut tail, t.source_pool_address.as_slice());
    let after_pool = tail.len();
    push_dynamic_bytes(&mut tail, t.dest_token_address.as_slice());
    let after_token = tail.len();
    push_dynamic_bytes(&mut tail, t.extra_data.as_slice());
    push_word_u128(out, 128);
    push_word_u128(out, 128 + after_pool as u128);
    push_word_u128(out, 128 + after_token as u128);
    push_word_u128(out, t.amount);
    append_bytes(out, tail.as_slice());
    assert(out@ =~= old(out)@ + token_encoding(t@));
}

/// Appends an array of token records as a dynamic value to `out`.
pub fn push_token_array(out: &mut Vec<u8>, ts: &Vec<InternalRampTokenAmount>)
    ensures
        final(out)@ == old(out)@ + token_array_encoding(token_views(ts@)),
{
    let count = ts.len();
    let ghost views = token_views(ts@);
    let mut offsets: Vec<u8> = Vec::new();
    let mut records: Vec<u8> = Vec::new();
    let mut i: usize = 0;
    while i < count
        invariant
            count == ts@.len(),
            views == token_views(ts@),
            i <= count,
            offsets@ == element_heads(views.take(i as int), count as nat),
            records@ == element_tails(views.take(i as int)),
        decreases count - i,
    {
        proof {
            assert(views.take(i + 1).drop_last() =~= views.take(i as int));
            assert(views.take(i + 1).last() == ts@[i as int]@);
        }
        push_word_u128(&mut offsets, 32 * (count as u128) + records.len() as u128);
        push_token(&mut records, &ts[i]);
        i = i + 1;
    }
    assert(views.take(count as int) =~= views);
    push_word_u128(out, count as u128);
    append_bytes(out, offsets.as_slice());
    append_bytes(out, records.as_slice());
    assert(out@ =~= old(out)@ + token_array_encoding(views));
}

/// Encodes the tuple `values`.
pub fn abi_encode(values: &Vec<Field>) -> (out: Vec<u8>)
    ensures
        out@ == tuple_encoding(field_views(values@)),
{
    let count = values.len();
    let ghost views = field_views(values@);
    let mut head: Vec<u8> = Vec::new();
    let mut tail: Vec<u8> = Vec::new();
    let mut i: usize = 0;
    while i < count
        invariant
            count == values@.len(),
            views == field_views(values@),
            i <= count,
            head@ == heads(views.take(i as int), 32 * count as nat),
            tail@ == tails(views.take(i as int)),
        decreases count - i,
    {
        proof {
            assert(views.take(i + 1).drop_last() =~= views.take(i as int));
            assert(views.take(i + 1).last() == values@[i as int]@);
        }
        let offset: u128 = 32 * (count as u128) + tail.len() as u128;
        match &values[i] {
            Field::Fixed32(w) => {
                append_bytes(&mut head, w.as_slice());
            },
            Field::Uint64(x) => {
                push_word_u128(&mut head, *x as u128);
            },
            Field::Uint128(x) => {
                push_word_u128(&mut head, *x);
            },
            Field::Uint256(x) => {
                push_word(&mut head, *x);
            },
            Field::Bytes(b) => {
                push_word_u128(&mut head, offset);
                push_dynamic_bytes(&mut tail, b.as_slice());
            },
            Field::TokenArray(ts) => {
                push_word_u128(&mut head, offset);
                push_token_array(&mut tail, ts);
            },
        }
        proof {
            assert(tail@ =~= tails(views.take(i + 1)));
        }
        i = i + 1;
    }
    assert(views.take(count as int) =~= views);
    append_bytes(&mut head, tail.as_slice());
    head
}


/// The fields of a token record, in the order of its encoding.
pub open spec fn token_fields(t: TokenAmountView) -> Seq<FieldView> {
    seq![
        FieldView::Bytes(t.source_pool_address),
        FieldView::Bytes(t.dest_token_address),
        FieldView::Bytes(t.extra_data),
        FieldView::Uint(t.amount),
    ]
}

/// A token record is encoded as the tuple of its four fields.
pub proof fn lemma_token_encoding_is_tuple(t: TokenAmountView)
    ensures
        token_encoding(t) == tuple_encoding(token_fields(t)),
{
    let f4 = token_fields(t);
    let f3 = f4.drop_last();
    let f2 = f3.drop_last();
    let f1 = f2.drop_last();
    let f0 = f1.drop_last();
    assert(f3 =~= seq![f4[0], f4[1], f4[2]]);
    assert(f2 =~= seq![f4[0], f4[1]]);
    assert(f1 =~= seq![f4[0]]);
    assert(f0 =~= Seq::<FieldView>::empty());
    let pool = dynamic_bytes(t.source_pool_address);
    let token = dynamic_bytes(t.dest_token_address);
    let extra = dynamic_bytes(t.extra_data);
    assert(tails(f0) =~= Seq::<u8>::empty());
    assert(tails(f1) =~= pool);
    assert(tails(f2) =~= pool + token);
    assert(tails(f3) =~= pool + token + extra);
    assert(tails(f4) =~= pool + token + extra);
    assert(heads(f0, 128) =~= Seq::<u8>::empty());
    assert(heads(f1, 128) =~= word(128));
    assert(heads(f2, 128) =~= word(128) + word(128 + pool.len()));
    assert(heads(f3, 128) =~= word(128) + word(128 + pool.len()) + word(
        128 + pool.len() + token.len(),
    ));
    assert(heads(f4, 128) =~= word(128) + word(128 + pool.len()) + word(
        128 + pool.len() + token.len(),
    ) + word(t.amount));
    assert(token_encoding(t) =~= tuple_encoding(f4));
}

} // verus!
