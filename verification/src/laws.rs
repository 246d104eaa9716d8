//! What holds of the commitment of every message.
//!
//! A digest is shorter than what it digests, so two different inputs can
//! share one. Whatever is said below of commitments is therefore said up to
//! a collision of the hash function: either the claim holds, or two
//! different byte strings that the pipeline hashes have the same digest.

use vstd::prelude::*;
use crate::encoding::{FieldView, TokenAmountView};
use crate::error::HashError;
use crate::extra_args::{
    gas_limit_of, selected_format, well_shaped, ExtraArgsFormat, EVM_EXTRA_ARGS_V1_TAG,
    EVM_EXTRA_ARGS_V2_TAG,
};
use crate::injective::{
    lemma_tuple_encoding_injective, lemma_word_len, same_shape, valid_fields, valid_token,
    valid_tokens,
};
use crate::keccak::keccak256_digest;
use crate::message::{transfer_views, Message, MessageView};
use crate::hasher::{commitment, message_hash};
use crate::preimage::{
    amounts_fit, final_preimage, fixed_size_fields_preimage, metadata_preimage, token_amounts_preimage,
    ANY_2_EVM_MESSAGE_HASH, LEAF_DOMAIN_SEPARATOR,
};
use crate::word::{
    lemma_be_bytes_of_be_value, lemma_be_value_bound, lemma_be_value_of_be_bytes,
    lemma_pow256_32, lemma_u256_fits, two_pow_128, two_pow_256, word,
};

verus! {

/// Whether the parts of a message are of a size that a word can state.
/// Every message that exists in memory is.
pub open spec fn valid_message(m: MessageView) -> bool {
    &&& m.header.message_id.len() == 32
    &&& m.header.source_chain_selector < two_pow_256()
    &&& m.header.dest_chain_selector < two_pow_256()
    &&& m.header.on_ramp.len() < two_pow_256()
    &&& m.header.sequence_number < two_pow_256()
    &&& m.header.nonce < two_pow_256()
    &&& m.sender.len() < two_pow_256()
    &&& m.receiver.len() < two_pow_256()
    &&& valid_tokens(m.token_amounts)
}

/// Two different byte strings with one digest.
pub open spec fn collision(a: Seq<u8>, b: Seq<u8>) -> bool {
    a != b && keccak256_digest(a) == keccak256_digest(b)
}

/// The metadata preimage of a message.
pub open spec fn metadata_of(m: MessageView) -> Seq<u8> {
    metadata_preimage(
        m.header.source_chain_selector,
        m.header.dest_chain_selector,
        m.header.on_ramp,
    )
}

/// The fixed-size-fields preimage of a message with gas limit `gas_limit`.
pub open spec fn fixed_size_fields_of(m: MessageView, gas_limit: nat) -> Seq<u8> {
    fixed_size_fields_preimage(
        m.header.message_id,
        m.sender,
        m.receiver,
        m.header.sequence_number,
        gas_limit,
        m.header.nonce,
    )
}

/// The final preimage of a message with gas limit `gas_limit`.
pub open spec fn final_preimage_of(m: MessageView, gas_limit: nat) -> Seq<u8> {
    final_preimage(
        keccak256_digest(metadata_of(m))@,
        keccak256_digest(fixed_size_fields_of(m, gas_limit))@,
        keccak256_digest(m.data)@,
        keccak256_digest(token_amounts_preimage(m.token_amounts))@,
    )
}

/// Whether two byte strings that the pipeline hashes for the one message
/// and for the other differ and have one digest.
pub open spec fn collision_between(m1: MessageView, g1: nat, m2: MessageView, g2: nat) -> bool {
    ||| collision(metadata_of(m1), metadata_of(m2))
    ||| collision(fixed_size_fields_of(m1, g1), fixed_size_fields_of(m2, g2))
    ||| collision(m1.data, m2.data)
    ||| collision(
        token_amounts_preimage(m1.token_amounts),
        token_amounts_preimage(m2.token_amounts),
    )
    ||| collision(final_preimage_of(m1, g1), final_preimage_of(m2, g2))
}

/// Whether two messages agree on everything that enters the commitment:
/// every field but the extra args, of which only the gas limit enters.
pub open spec fn same_hashed_content(m1: MessageView, g1: nat, m2: MessageView, g2: nat) -> bool {
    &&& m1.header == m2.header
    &&& m1.sender == m2.sender
    &&& m1.receiver == m2.receiver
    &&& m1.data == m2.data
    &&& m1.token_amounts == m2.token_amounts
    &&& g1 == g2
}

/// A sequence with the entries at `i` and `j` exchanged.
pub open spec fn swapped<T>(s: Seq<T>, i: int, j: int) -> Seq<T> {
    s.update(i, s[j]).update(j, s[i])
}

/// The extra args of the first format that carry `gas_limit`.
pub open spec fn extra_args_v1(gas_limit: nat) -> Seq<u8> {
    EVM_EXTRA_ARGS_V1_TAG@ + word(gas_limit)
}

/// The extra args of the second format that carry `gas_limit` and the flag.
pub open spec fn extra_args_v2(gas_limit: nat, allow_out_of_order: bool) -> Seq<u8> {
    EVM_EXTRA_ARGS_V2_TAG@ + word(gas_limit) + word(
        if allow_out_of_order {
            1
        } else {
            0
        },
    )
}

/// Every message in memory is valid.
pub proof fn lemma_message_valid(msg: Message)
    ensures
        valid_message(msg@),
{
    lemma_two_pow_256_is_large();
    assert(msg.header.on_ramp.len() == msg.header.on_ramp@.len());
    assert(msg.sender.len() == msg.sender@.len());
    assert(msg.receiver.len() == msg.receiver@.len());
    assert(msg.token_amounts.len() == msg.token_amounts@.len());
    let views = transfer_views(msg.token_amounts@);
    assert forall|i: int| 0 <= i < views.len() implies valid_token(#[trigger] views[i]) by {
        let t = msg.token_amounts@[i];
        assert(views[i] == t@);
        assert(t.source_pool_address.len() == t.source_pool_address@.len());
        assert(t.dest_token_address.len() == t.dest_token_address@.len());
        assert(t.extra_data.len() == t.extra_data@.len());
        lemma_u256_fits(t.amount);
    }
}

/// A word holds more than 128 bits.
pub proof fn lemma_two_pow_256_is_large()
    ensures
        two_pow_256() > 0xffff_ffff_ffff_ffff_ffff_ffff_ffff_ffff,
{
    assert(two_pow_128() * two_pow_128()
        > 0xffff_ffff_ffff_ffff_ffff_ffff_ffff_ffff) by (nonlinear_arith)
        requires
            two_pow_128() > 0xffff_ffff_ffff_ffff_ffff_ffff_ffff_ffff,
    ;
}

/// Hashing is a function of what the message holds: two messages that hold
/// the same have the same outcome, commitment or error.
pub proof fn lemma_hash_deterministic(
    a: Message,
    b: Message,
    ra: Result<[u8; 32], HashError>,
    rb: Result<[u8; 32], HashError>,
)
    requires
        a@ == b@,
        ra == message_hash(a@),
        rb == message_hash(b@),
    ensures
        ra == rb,
{
}


/// The metadata preimage keeps the two chain selectors and the on-ramp
/// address apart.
pub proof fn lemma_metadata_preimage_injective(
    s1: nat,
    d1: nat,
    o1: Seq<u8>,
    s2: nat,
    d2: nat,
    o2: Seq<u8>,
)
    requires
        s1 < two_pow_256() && d1 < two_pow_256() && o1.len() < two_pow_256(),
        s2 < two_pow_256() && d2 < two_pow_256() && o2.len() < two_pow_256(),
        metadata_preimage(s1, d1, o1) == metadata_preimage(s2, d2, o2),
    ensures
        s1 == s2,
        d1 == d2,
        o1 == o2,
{
    let tag = FieldView::Fixed32(ANY_2_EVM_MESSAGE_HASH@);
    let a = seq![tag, FieldView::Uint(s1), FieldView::Uint(d1), FieldView::Bytes(o1)];
    let b = seq![tag, FieldView::Uint(s2), FieldView::Uint(d2), FieldView::Bytes(o2)];
    assert(ANY_2_EVM_MESSAGE_HASH@.len() == 32);
    assert(same_shape(a, b));
    assert(valid_fields(a));
    assert(valid_fields(b));
    lemma_tuple_encoding_injective(a, b);
    assert(a[1] == b[1] && a[2] == b[2] && a[3] == b[3]);
}

/// The fixed-size-fields preimage keeps its six fields apart.
pub proof fn lemma_fixed_size_fields_preimage_injective(
    id1: Seq<u8>,
    sender1: Seq<u8>,
    receiver1: Seq<u8>,
    seq1: nat,
    gas1: nat,
    nonce1: nat,
    id2: Seq<u8>,
    sender2: Seq<u8>,
    receiver2: Seq<u8>,
    seq2: nat,
    gas2: nat,
    nonce2: nat,
)
    requires
        id1.len() == 32 && sender1.len() < two_pow_256() && receiver1.len() < two_pow_256(),
        seq1 < two_pow_256() && gas1 < two_pow_256() && nonce1 < two_pow_256(),
        id2.len() == 32 && sender2.len() < two_pow_256() && receiver2.len() < two_pow_256(),
        seq2 < two_pow_256() && gas2 < two_pow_256() && nonce2 < two_pow_256(),
        fixed_size_fields_preimage(id1, sender1, receiver1, seq1, gas1, nonce1)
            == fixed_size_fields_preimage(id2, sender2, receiver2, seq2, gas2, nonce2),
    ensures
        id1 == id2,
        sender1 == sender2,
        receiver1 == receiver2,
        seq1 == seq2,
        gas1 == gas2,
        nonce1 == nonce2,
{
    let a = seq![
        FieldView::Fixed32(id1),
        FieldView::Bytes(sender1),
        FieldView::Bytes(receiver1),
        FieldView::Uint(seq1),
        FieldView::Uint(gas1),
        FieldView::Uint(nonce1),
    ];
    let b = seq![
        FieldView::Fixed32(id2),
        FieldView::Bytes(sender2),
        FieldView::Bytes(receiver2),
        FieldView::Uint(seq2),
        FieldView::Uint(gas2),
        FieldView::Uint(nonce2),
    ];
    assert(same_shape(a, b));
    assert(valid_fields(a));
    assert(valid_fields(b));
    lemma_tuple_encoding_injective(a, b);
    assert(a[0] == b[0] && a[1] == b[1] && a[2] == b[2]);
    assert(a[3] == b[3] && a[4] == b[4] && a[5] == b[5]);
}

/// The token-amounts preimage keeps every record, and their order.
pub proof fn lemma_token_amounts_preimage_injective(
    a: Seq<TokenAmountView>,
    b: Seq<TokenAmountView>,
)
    requires
        valid_tokens(a),
        valid_tokens(b),
        token_amounts_preimage(a) == token_amounts_preimage(b),
    ensures
        a == b,
{
    let fa = seq![FieldView::TokenArray(a)];
    let fb = seq![FieldView::TokenArray(b)];
    assert(same_shape(fa, fb));
    assert(valid_fields(fa));
    assert(valid_fields(fb));
    lemma_tuple_encoding_injective(fa, fb);
    assert(fa[0] == fb[0]);
}

/// The final preimage keeps the four digests apart.
pub proof fn lemma_final_preimage_injective(
    a1: [u8; 32],
    b1: [u8; 32],
    c1: [u8; 32],
    d1: [u8; 32],
    a2: [u8; 32],
    b2: [u8; 32],
    c2: [u8; 32],
    d2: [u8; 32],
)
    requires
        final_preimage(a1@, b1@, c1@, d1@) == final_preimage(a2@, b2@, c2@, d2@),
    ensures
        a1 == a2,
        b1 == b2,
        c1 == c2,
        d1 == d2,
{
    let leaf = FieldView::Fixed32(LEAF_DOMAIN_SEPARATOR@);
    let x = seq![
        leaf,
        FieldView::Fixed32(a1@),
        FieldView::Fixed32(b1@),
        FieldView::Fixed32(c1@),
        FieldView::Fixed32(d1@),
    ];
    let y = seq![
        leaf,
        FieldView::Fixed32(a2@),
        FieldView::Fixed32(b2@),
        FieldView::Fixed32(c2@),
        FieldView::Fixed32(d2@),
    ];
    assert(LEAF_DOMAIN_SEPARATOR@.len() == 32);
    assert(same_shape(x, y));
    assert(valid_fields(x));
    assert(valid_fields(y));
    lemma_tuple_encoding_injective(x, y);
    assert(x[1] == y[1] && x[2] == y[2] && x[3] == y[3] && x[4] == y[4]);
    assert(a1 =~= a2);
    assert(b1 =~= b2);
    assert(c1 =~= c2);
    assert(d1 =~= d2);
}

/// Sensitivity, of the preimages. Two valid messages that differ in any
/// field that enters the commitment differ in at least one of the four
/// byte strings that are hashed for them.
pub proof fn lemma_field_change_changes_a_preimage(
    m1: MessageView,
    g1: nat,
    m2: MessageView,
    g2: nat,
)
    requires
        valid_message(m1),
        valid_message(m2),
        g1 < two_pow_256(),
        g2 < two_pow_256(),
        !same_hashed_content(m1, g1, m2, g2),
    ensures
        metadata_of(m1) != metadata_of(m2) || fixed_size_fields_of(m1, g1) != fixed_size_fields_of(
            m2,
            g2,
        ) || m1.data != m2.data || token_amounts_preimage(m1.token_amounts)
            != token_amounts_preimage(m2.token_amounts),
{
    if metadata_of(m1) == metadata_of(m2) && fixed_size_fields_of(m1, g1) == fixed_size_fields_of(
        m2,
        g2,
    ) && token_amounts_preimage(m1.token_amounts) == token_amounts_preimage(m2.token_amounts) {
        lemma_metadata_preimage_injective(
            m1.header.source_chain_selector,
            m1.header.dest_chain_selector,
            m1.header.on_ramp,
            m2.header.source_chain_selector,
            m2.header.dest_chain_selector,
            m2.header.on_ramp,
        );
        lemma_fixed_size_fields_preimage_injective(
            m1.header.message_id,
            m1.sender,
            m1.receiver,
            m1.header.sequence_number,
            g1,
            m1.header.nonce,
            m2.header.message_id,
            m2.sender,
            m2.receiver,
            m2.header.sequence_number,
            g2,
            m2.header.nonce,
        );
        lemma_token_amounts_preimage_injective(m1.token_amounts, m2.token_amounts);
    }
}

/// Sensitivity. Two valid messages with one commitment agree on every
/// field that enters it, unless the hash function collides on two byte
/// strings that the pipeline hashes for them.
pub proof fn lemma_commitment_sensitive(m1: MessageView, g1: nat, m2: MessageView, g2: nat)
    requires
        valid_message(m1),
        valid_message(m2),
        g1 < two_pow_256(),
        g2 < two_pow_256(),
        commitment(m1, g1) == commitment(m2, g2),
    ensures
        same_hashed_content(m1, g1, m2, g2) || collision_between(m1, g1, m2, g2),
{
    if !collision_between(m1, g1, m2, g2) {
        let t1 = token_amounts_preimage(m1.token_amounts);
        let t2 = token_amounts_preimage(m2.token_amounts);
        assert(final_preimage_of(m1, g1) == final_preimage_of(m2, g2));
        lemma_final_preimage_injective(
            keccak256_digest(metadata_of(m1)),
            keccak256_digest(fixed_size_fields_of(m1, g1)),
            keccak256_digest(m1.data),
            keccak256_digest(t1),
            keccak256_digest(metadata_of(m2)),
            keccak256_digest(fixed_size_fields_of(m2, g2)),
            keccak256_digest(m2.data),
            keccak256_digest(t2),
        );
        assert(metadata_of(m1) == metadata_of(m2));
        assert(fixed_size_fields_of(m1, g1) == fixed_size_fields_of(m2, g2));
        assert(m1.data == m2.data);
        assert(t1 == t2);
        if !same_hashed_content(m1, g1, m2, g2) {
            lemma_field_change_changes_a_preimage(m1, g1, m2, g2);
        }
    }
}

/// The gas limit that extra args carry fits in a word.
pub proof fn lemma_gas_limit_fits(blob: Seq<u8>)
    requires
        gas_limit_of(blob) is Ok,
    ensures
        gas_limit_of(blob)->Ok_0 < two_pow_256(),
{
    lemma_be_value_bound(blob.subrange(4, 36));
    lemma_pow256_32();
}

/// Sensitivity, of whole messages. Two valid messages that hash to one
/// commitment agree on every field but the extra args, and their extra
/// args carry one gas limit, unless the hash function collides.
pub proof fn lemma_hash_sensitive(m1: MessageView, m2: MessageView)
    requires
        valid_message(m1),
        valid_message(m2),
        message_hash(m1) is Ok,
        message_hash(m1) == message_hash(m2),
    ensures
        gas_limit_of(m1.extra_args) is Ok,
        gas_limit_of(m2.extra_args) is Ok,
        same_hashed_content(
            m1,
            gas_limit_of(m1.extra_args)->Ok_0,
            m2,
            gas_limit_of(m2.extra_args)->Ok_0,
        ) || collision_between(
            m1,
            gas_limit_of(m1.extra_args)->Ok_0,
            m2,
            gas_limit_of(m2.extra_args)->Ok_0,
        ),
{
    lemma_gas_limit_fits(m1.extra_args);
    lemma_gas_limit_fits(m2.extra_args);
    lemma_commitment_sensitive(
        m1,
        gas_limit_of(m1.extra_args)->Ok_0,
        m2,
        gas_limit_of(m2.extra_args)->Ok_0,
    );
}

/// Order sensitivity, of the preimage. Exchanging two token records that
/// differ changes the token-amounts preimage.
pub proof fn lemma_swap_changes_token_preimage(ts: Seq<TokenAmountView>, i: int, j: int)
    requires
        valid_tokens(ts),
        0 <= i < ts.len(),
        0 <= j < ts.len(),
        ts[i] != ts[j],
    ensures
        token_amounts_preimage(swapped(ts, i, j)) != token_amounts_preimage(ts),
{
    let sw = swapped(ts, i, j);
    assert forall|k: int| 0 <= k < sw.len() implies valid_token(#[trigger] sw[k]) by {
        assert(valid_token(ts[k]) && valid_token(ts[i]) && valid_token(ts[j]));
    }
    if token_amounts_preimage(sw) == token_amounts_preimage(ts) {
        lemma_token_amounts_preimage_injective(sw, ts);
        assert(sw[i] == ts[j]);
    }
}

/// Order sensitivity, of the commitment. Exchanging two token records
/// that differ changes the commitment, unless the hash function collides
/// on the two token-amounts preimages or on the two final preimages.
pub proof fn lemma_swap_changes_commitment(m: MessageView, gas_limit: nat, i: int, j: int)
    requires
        valid_message(m),
        gas_limit < two_pow_256(),
        0 <= i < m.token_amounts.len(),
        0 <= j < m.token_amounts.len(),
        m.token_amounts[i] != m.token_amounts[j],
    ensures
        ({
            let exchanged = MessageView { token_amounts: swapped(m.token_amounts, i, j), ..m };
            ||| commitment(exchanged, gas_limit) != commitment(m, gas_limit)
            ||| collision(
                token_amounts_preimage(exchanged.token_amounts),
                token_amounts_preimage(m.token_amounts),
            )
            ||| collision(final_preimage_of(exchanged, gas_limit), final_preimage_of(m, gas_limit))
        }),
{
    let exchanged = MessageView { token_amounts: swapped(m.token_amounts, i, j), ..m };
    lemma_swap_changes_token_preimage(m.token_amounts, i, j);
    if commitment(exchanged, gas_limit) == commitment(m, gas_limit) && !collision(
        final_preimage_of(exchanged, gas_limit),
        final_preimage_of(m, gas_limit),
    ) {
        lemma_final_preimage_injective(
            keccak256_digest(metadata_of(exchanged)),
            keccak256_digest(fixed_size_fields_of(exchanged, gas_limit)),
            keccak256_digest(exchanged.data),
            keccak256_digest(token_amounts_preimage(exchanged.token_amounts)),
            keccak256_digest(metadata_of(m)),
            keccak256_digest(fixed_size_fields_of(m, gas_limit)),
            keccak256_digest(m.data),
            keccak256_digest(token_amounts_preimage(m.token_amounts)),
        );
    }
}

/// Version dispatch. Extra args of either format that carry one gas limit
/// decode to that gas limit.
pub proof fn lemma_formats_carry_gas_limit(gas_limit: nat, allow_out_of_order: bool)
    requires
        gas_limit < two_pow_256(),
    ensures
        gas_limit_of(extra_args_v1(gas_limit)) == Ok::<nat, HashError>(gas_limit),
        gas_limit_of(extra_args_v2(gas_limit, allow_out_of_order)) == Ok::<nat, HashError>(
            gas_limit,
        ),
{
    let flag: nat = if allow_out_of_order {
        1
    } else {
        0
    };
    let v1 = extra_args_v1(gas_limit);
    let v2 = extra_args_v2(gas_limit, allow_out_of_order);
    lemma_word_len(gas_limit);
    lemma_word_len(flag);
    lemma_pow256_32();
    lemma_two_pow_256_is_large();
    lemma_be_value_of_be_bytes(gas_limit, 32);
    lemma_be_value_of_be_bytes(flag, 32);
    assert(EVM_EXTRA_ARGS_V1_TAG@ =~= seq![0x97u8, 0xa6u8, 0x57u8, 0xc9u8]);
    assert(EVM_EXTRA_ARGS_V2_TAG@ =~= seq![0x18u8, 0x1du8, 0xcfu8, 0x10u8]);
    assert(v1.subrange(0, 4) =~= EVM_EXTRA_ARGS_V1_TAG@);
    assert(v1.subrange(4, 36) =~= word(gas_limit));
    assert(v2.subrange(0, 4) =~= EVM_EXTRA_ARGS_V2_TAG@);
    assert(v2.subrange(0, 4)[0] != EVM_EXTRA_ARGS_V1_TAG@[0]);
    assert(v2.subrange(4, 36) =~= word(gas_limit));
    assert(v2.subrange(36, 68) =~= word(flag));
    assert(selected_format(v1) == Some(ExtraArgsFormat::V1));
    assert(selected_format(v2) == Some(ExtraArgsFormat::V2));
    assert(well_shaped(ExtraArgsFormat::V1, v1));
    assert(well_shaped(ExtraArgsFormat::V2, v2));
}

/// Version dispatch, of whole messages. Only the gas limit of the extra
/// args enters the outcome: two messages that differ in their extra args
/// alone, and whose extra args carry one gas limit, hash alike.
pub proof fn lemma_extra_args_enter_by_gas_limit(m1: MessageView, m2: MessageView)
    requires
        m2 == (MessageView { extra_args: m2.extra_args, ..m1 }),
        gas_limit_of(m1.extra_args) == gas_limit_of(m2.extra_args),
    ensures
        message_hash(m1) == message_hash(m2),
        gas_limit_of(m1.extra_args) is Ok ==> fixed_size_fields_of(
            m1,
            gas_limit_of(m1.extra_args)->Ok_0,
        ) == fixed_size_fields_of(m2, gas_limit_of(m2.extra_args)->Ok_0),
{
}

/// Version dispatch, stated of the two formats: a message hashes alike
/// with extra args of the first and of the second format, where both
/// carry one gas limit.
pub proof fn lemma_version_dispatch_equivalence(
    m: MessageView,
    gas_limit: nat,
    allow_out_of_order: bool,
)
    requires
        gas_limit < two_pow_256(),
    ensures
        message_hash(MessageView { extra_args: extra_args_v1(gas_limit), ..m }) == message_hash(
            MessageView { extra_args: extra_args_v2(gas_limit, allow_out_of_order), ..m },
        ),
{
    lemma_formats_carry_gas_limit(gas_limit, allow_out_of_order);
}

/// An oversized token amount fails the hash with an encoding error,
/// whatever else the message holds.
pub proof fn lemma_overflow_rejected(m: MessageView, i: int)
    requires
        0 <= i < m.token_amounts.len(),
        m.token_amounts[i].amount >= two_pow_128(),
    ensures
        message_hash(m) == Err::<[u8; 32], HashError>(HashError::EncodingError),
{
}

/// Extra args that begin with no known selector fail the hash with the
/// error for an unsupported format, where the token amounts fit.
pub proof fn lemma_unknown_version_rejected(m: MessageView)
    requires
        amounts_fit(m.token_amounts),
        selected_format(m.extra_args) is None,
    ensures
        message_hash(m) == Err::<[u8; 32], HashError>(HashError::UnsupportedExtraArgsFormat),
{
}

/// Sensitivity, of messages in memory. Two messages that hash to one
/// commitment agree on every field but the extra args, and their extra
/// args carry one gas limit, unless the hash function collides.
pub proof fn lemma_messages_hash_sensitive(a: Message, b: Message)
    requires
        message_hash(a@) is Ok,
        message_hash(a@) == message_hash(b@),
    ensures
        gas_limit_of(a@.extra_args) is Ok,
        gas_limit_of(b@.extra_args) is Ok,
        same_hashed_content(
            a@,
            gas_limit_of(a@.extra_args)->Ok_0,
            b@,
            gas_limit_of(b@.extra_args)->Ok_0,
        ) || collision_between(
            a@,
            gas_limit_of(a@.extra_args)->Ok_0,
            b@,
            gas_limit_of(b@.extra_args)->Ok_0,
        ),
{
    lemma_message_valid(a);
    lemma_message_valid(b);
    lemma_hash_sensitive(a@, b@);
}

/// Order sensitivity, of messages in memory. Where `b` is `a` with two
/// token transfers that differ exchanged, and `a` has a commitment, `b` has
/// another, unless the hash function collides on the two token-amounts
/// preimages or on the two final preimages.
pub proof fn lemma_messages_swap_changes_hash(a: Message, b: Message, i: int, j: int)
    requires
        0 <= i < a@.token_amounts.len(),
        0 <= j < a@.token_amounts.len(),
        a@.token_amounts[i] != a@.token_amounts[j],
        b@ == (MessageView { token_amounts: swapped(a@.token_amounts, i, j), ..a@ }),
        message_hash(a@) is Ok,
    ensures
        message_hash(b@) is Ok,
        ({
            let gas_limit = gas_limit_of(a@.extra_args)->Ok_0;
            ||| message_hash(b@) != message_hash(a@)
            ||| collision(
                token_amounts_preimage(b@.token_amounts),
                token_amounts_preimage(a@.token_amounts),
            )
            ||| collision(final_preimage_of(b@, gas_limit), final_preimage_of(a@, gas_limit))
        }),
{
    lemma_message_valid(a);
    lemma_gas_limit_fits(a@.extra_args);
    assert(amounts_fit(b@.token_amounts)) by {
        assert forall|k: int| 0 <= k < b@.token_amounts.len() implies (
        #[trigger] b@.token_amounts[k]).amount < two_pow_128() by {
            assert(a@.token_amounts[k].amount < two_pow_128());
            assert(a@.token_amounts[i].amount < two_pow_128());
            assert(a@.token_amounts[j].amount < two_pow_128());
        }
    }
    lemma_swap_changes_commitment(a@, gas_limit_of(a@.extra_args)->Ok_0, i, j);
}

/// The gas limit enters the preimage as the very word that the extra args
/// hold.
pub proof fn lemma_gas_limit_word_is_verbatim(blob: Seq<u8>)
    requires
        gas_limit_of(blob) is Ok,
    ensures
        word(gas_limit_of(blob)->Ok_0) == blob.subrange(4, 36),
{
    lemma_be_bytes_of_be_value(blob.subrange(4, 36));
}

} // verus!
