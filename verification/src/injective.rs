//! The tuple encoding loses nothing: two tuples of the same shape with the
//! same encoding are the same tuple.
//!
//! The proofs read an encoding from the front. Every piece either has a
//! fixed length or begins with its own length, so where two encodings agree
//! the pieces agree one by one, whatever follows them.

use vstd::prelude::*;
use crate::encoding::{
    dynamic_bytes, element_heads, element_tails, field_head, field_tail, heads, is_dynamic,
    padding, tails, token_array_encoding, token_encoding, tuple_encoding, FieldView,
    TokenAmountView,
};
use crate::word::{lemma_be_bytes_len, lemma_word_injective, two_pow_256, word, zeros};

verus! {

/// Whether a token record can be encoded without loss: its lengths and its
/// amount fit in a word.
pub open spec fn valid_token(t: TokenAmountView) -> bool {
    &&& t.source_pool_address.len() < two_pow_256()
    &&& t.dest_token_address.len() < two_pow_256()
    &&& t.extra_data.len() < two_pow_256()
    &&& t.amount < two_pow_256()
}

/// Whether every record of `ts` is valid and their number fits in a word.
pub open spec fn valid_tokens(ts: Seq<TokenAmountView>) -> bool {
    &&& ts.len() < two_pow_256()
    &&& forall|i: int| 0 <= i < ts.len() ==> valid_token(#[trigger] ts[i])
}

/// Whether a field can be encoded without loss.
pub open spec fn valid_field(f: FieldView) -> bool {
    match f {
        FieldView::Fixed32(w) => w.len() == 32,
        FieldView::Uint(n) => n < two_pow_256(),
        FieldView::Bytes(b) => b.len() < two_pow_256(),
        FieldView::TokenArray(ts) => valid_tokens(ts),
    }
}

/// Whether every field of `fs` is valid.
pub open spec fn valid_fields(fs: Seq<FieldView>) -> bool {
    forall|i: int| 0 <= i < fs.len() ==> valid_field(#[trigger] fs[i])
}

/// Whether two fields have the same type.
pub open spec fn same_kind(f: FieldView, g: FieldView) -> bool {
    match f {
        FieldView::Fixed32(_) => g is Fixed32,
        FieldView::Uint(_) => g is Uint,
        FieldView::Bytes(_) => g is Bytes,
        FieldView::TokenArray(_) => g is TokenArray,
    }
}

/// Whether two tuples have the same types in the same order.
pub open spec fn same_shape(a: Seq<FieldView>, b: Seq<FieldView>) -> bool {
    &&& a.len() == b.len()
    &&& forall|i: int| 0 <= i < a.len() ==> same_kind(#[trigger] a[i], b[i])
}

/// Two concatenations that agree, with first parts of one length, agree
/// part by part.
pub proof fn lemma_concat_parts<T>(a: Seq<T>, r1: Seq<T>, b: Seq<T>, r2: Seq<T>)
    requires
        a + r1 == b + r2,
        a.len() == b.len(),
    ensures
        a == b,
        r1 == r2,
{
    let n = a.len() as int;
    assert((a + r1).subrange(0, n) =~= a);
    assert((b + r2).subrange(0, n) =~= b);
    assert((a + r1).subrange(n, (a + r1).len() as int) =~= r1);
    assert((b + r2).subrange(n, (b + r2).len() as int) =~= r2);
}

/// Concatenation does not depend on grouping.
pub proof fn lemma_concat_assoc<T>(a: Seq<T>, b: Seq<T>, c: Seq<T>)
    ensures
        (a + b) + c == a + (b + c),
{
    assert((a + b) + c =~= a + (b + c));
}

/// The empty sequence adds nothing in front.
pub proof fn lemma_concat_empty<T>(r: Seq<T>)
    ensures
        Seq::<T>::empty() + r == r,
        r + Seq::<T>::empty() == r,
{
    assert(Seq::<T>::empty() + r =~= r);
    assert(r + Seq::<T>::empty() =~= r);
}

/// Three parts and a rest, grouped from the right.
pub proof fn lemma_regroup_three<T>(a: Seq<T>, b: Seq<T>, c: Seq<T>, r: Seq<T>)
    ensures
        ((a + b) + c) + r == a + (b + (c + r)),
{
    assert(((a + b) + c) + r =~= a + (b + (c + r)));
}

/// Three leading parts kept together, then four parts and a rest grouped
/// from the right.
pub proof fn lemma_regroup_record<T>(
    o1: Seq<T>,
    o2: Seq<T>,
    o3: Seq<T>,
    w: Seq<T>,
    a: Seq<T>,
    b: Seq<T>,
    c: Seq<T>,
    r: Seq<T>,
)
    ensures
        ((((((o1 + o2) + o3) + w) + a) + b) + c) + r == ((o1 + o2) + o3) + (w + (a + (b + (c
            + r)))),
{
    assert(((((((o1 + o2) + o3) + w) + a) + b) + c) + r =~= ((o1 + o2) + o3) + (w + (a + (b + (c
        + r)))));
}

/// A word has 32 bytes.
pub proof fn lemma_word_len(n: nat)
    ensures
        word(n).len() == 32,
{
    lemma_be_bytes_len(n, 32);
}

/// Two words followed by anything agree only where the numbers agree.
pub proof fn lemma_word_prefix_free(x: nat, r1: Seq<u8>, y: nat, r2: Seq<u8>)
    requires
        x < two_pow_256(),
        y < two_pow_256(),
        word(x) + r1 == word(y) + r2,
    ensures
        x == y,
        r1 == r2,
{
    lemma_word_len(x);
    lemma_word_len(y);
    lemma_concat_parts(word(x), r1, word(y), r2);
    lemma_word_injective(x, y);
}

/// A byte string as a dynamic value tells where it ends.
pub proof fn lemma_dynamic_bytes_prefix_free(x: Seq<u8>, r1: Seq<u8>, y: Seq<u8>, r2: Seq<u8>)
    requires
        x.len() < two_pow_256(),
        y.len() < two_pow_256(),
        dynamic_bytes(x) + r1 == dynamic_bytes(y) + r2,
    ensures
        x == y,
        r1 == r2,
{
    let px = zeros(padding(x.len()));
    let py = zeros(padding(y.len()));
    lemma_regroup_three(word(x.len()), x, px, r1);
    lemma_regroup_three(word(y.len()), y, py, r2);
    lemma_word_prefix_free(x.len(), x + (px + r1), y.len(), y + (py + r2));
    lemma_concat_parts(x, px + r1, y, py + r2);
    lemma_concat_parts(px, r1, py, r2);
}

/// An encoded token record tells where it ends.
pub proof fn lemma_token_prefix_free(
    s: TokenAmountView,
    r1: Seq<u8>,
    t: TokenAmountView,
    r2: Seq<u8>,
)
    requires
        valid_token(s),
        valid_token(t),
        token_encoding(s) + r1 == token_encoding(t) + r2,
    ensures
        s == t,
        r1 == r2,
{
    let sa = dynamic_bytes(s.source_pool_address);
    let sb = dynamic_bytes(s.dest_token_address);
    let sc = dynamic_bytes(s.extra_data);
    let ta = dynamic_bytes(t.source_pool_address);
    let tb = dynamic_bytes(t.dest_token_address);
    let tc = dynamic_bytes(t.extra_data);
    let s_offsets = word(128) + word(128 + sa.len()) + word(128 + sa.len() + sb.len());
    let t_offsets = word(128) + word(128 + ta.len()) + word(128 + ta.len() + tb.len());
    let s_rest = word(s.amount) + (sa + (sb + (sc + r1)));
    let t_rest = word(t.amount) + (ta + (tb + (tc + r2)));
    lemma_word_len(128);
    lemma_word_len(128 + sa.len());
    lemma_word_len(128 + sa.len() + sb.len());
    lemma_word_len(128 + ta.len());
    lemma_word_len(128 + ta.len() + tb.len());
    lemma_regroup_record(
        word(128),
        word(128 + sa.len()),
        word(128 + sa.len() + sb.len()),
        word(s.amount),
        sa,
        sb,
        sc,
        r1,
    );
    lemma_regroup_record(
        word(128),
        word(128 + ta.len()),
        word(128 + ta.len() + tb.len()),
        word(t.amount),
        ta,
        tb,
        tc,
        r2,
    );
    assert(s_offsets.len() == 96 && t_offsets.len() == 96);
    lemma_concat_parts(s_offsets, s_rest, t_offsets, t_rest);
    lemma_word_prefix_free(s.amount, sa + (sb + (sc + r1)), t.amount, ta + (tb + (tc + r2)));
    lemma_dynamic_bytes_prefix_free(
        s.source_pool_address,
        sb + (sc + r1),
        t.source_pool_address,
        tb + (tc + r2),
    );
    lemma_dynamic_bytes_prefix_free(s.dest_token_address, sc + r1, t.dest_token_address, tc + r2);
    lemma_dynamic_bytes_prefix_free(s.extra_data, r1, t.extra_data, r2);
}

/// The encodings of a sequence of records begin with that of the first.
pub proof fn lemma_element_tails_front(ts: Seq<TokenAmountView>)
    requires
        ts.len() > 0,
    ensures
        element_tails(ts) == token_encoding(ts.first()) + element_tails(ts.drop_first()),
    decreases ts.len(),
{
    let init = ts.drop_last();
    let rest = ts.drop_first();
    if ts.len() == 1 {
        assert(element_tails(init) == Seq::<u8>::empty());
        assert(element_tails(rest) == Seq::<u8>::empty());
        lemma_concat_empty(token_encoding(ts.first()));
    } else {
        lemma_element_tails_front(init);
        assert(init.drop_first() =~= rest.drop_last());
        assert(init.first() == ts.first());
        assert(rest.last() == ts.last());
        lemma_concat_assoc(
            token_encoding(ts.first()),
            element_tails(rest.drop_last()),
            token_encoding(ts.last()),
        );
    }
}

/// Validity passes on to a sequence of records without its first.
pub proof fn lemma_valid_tokens_drop_first(ts: Seq<TokenAmountView>)
    requires
        ts.len() > 0,
        forall|i: int| 0 <= i < ts.len() ==> valid_token(#[trigger] ts[i]),
    ensures
        valid_token(ts.first()),
        forall|i: int| 0 <= i < ts.drop_first().len() ==> valid_token(#[trigger] ts.drop_first()[i]),
{
    assert(valid_token(ts[0]));
    assert forall|i: int| 0 <= i < ts.drop_first().len() implies valid_token(
        #[trigger] ts.drop_first()[i],
    ) by {
        assert(valid_token(ts[i + 1]));
    }
}

/// Where the encodings of two sequences of records agree, whatever
/// follows, the first records agree and so do the encodings of the others.
pub proof fn lemma_element_tails_step(
    a: Seq<TokenAmountView>,
    r1: Seq<u8>,
    b: Seq<TokenAmountView>,
    r2: Seq<u8>,
)
    requires
        a.len() > 0,
        b.len() > 0,
        valid_token(a.first()),
        valid_token(b.first()),
        element_tails(a) + r1 == element_tails(b) + r2,
    ensures
        a.first() == b.first(),
        element_tails(a.drop_first()) + r1 == element_tails(b.drop_first()) + r2,
{
    lemma_element_tails_front(a);
    lemma_element_tails_front(b);
    lemma_concat_assoc(token_encoding(a.first()), element_tails(a.drop_first()), r1);
    lemma_concat_assoc(token_encoding(b.first()), element_tails(b.drop_first()), r2);
    lemma_token_prefix_free(
        a.first(),
        element_tails(a.drop_first()) + r1,
        b.first(),
        element_tails(b.drop_first()) + r2,
    );
}

/// Two sequences of as many records with the same encodings, whatever
/// follows, are the same sequence.
pub proof fn lemma_element_tails_injective(
    a: Seq<TokenAmountView>,
    r1: Seq<u8>,
    b: Seq<TokenAmountView>,
    r2: Seq<u8>,
)
    requires
        a.len() == b.len(),
        forall|i: int| 0 <= i < a.len() ==> valid_token(#[trigger] a[i]),
        forall|i: int| 0 <= i < b.len() ==> valid_token(#[trigger] b[i]),
        element_tails(a) + r1 == element_tails(b) + r2,
    ensures
        a == b,
        r1 == r2,
    decreases a.len(),
{
    if a.len() == 0 {
        lemma_concat_empty(r1);
        lemma_concat_empty(r2);
        assert(a =~= b);
    } else {
        lemma_valid_tokens_drop_first(a);
        lemma_valid_tokens_drop_first(b);
        lemma_element_tails_step(a, r1, b, r2);
        lemma_element_tails_injective(a.drop_first(), r1, b.drop_first(), r2);
        assert(a =~= seq![a.first()] + a.drop_first());
        assert(b =~= seq![b.first()] + b.drop_first());
    }
}

/// The offsets of an array take one word for each record.
pub proof fn lemma_element_heads_len(ts: Seq<TokenAmountView>, count: nat)
    ensures
        element_heads(ts, count).len() == 32 * ts.len(),
    decreases ts.len(),
{
    if ts.len() > 0 {
        lemma_element_heads_len(ts.drop_last(), count);
        lemma_word_len(32 * count + element_tails(ts.drop_last()).len());
    }
}

/// An encoded array of token records tells where it ends.
pub proof fn lemma_token_array_prefix_free(
    a: Seq<TokenAmountView>,
    r1: Seq<u8>,
    b: Seq<TokenAmountView>,
    r2: Seq<u8>,
)
    requires
        valid_tokens(a),
        valid_tokens(b),
        token_array_encoding(a) + r1 == token_array_encoding(b) + r2,
    ensures
        a == b,
        r1 == r2,
{
    let ha = element_heads(a, a.len());
    let hb = element_heads(b, b.len());
    let ta = element_tails(a) + r1;
    let tb = element_tails(b) + r2;
    lemma_regroup_three(word(a.len()), ha, element_tails(a), r1);
    lemma_regroup_three(word(b.len()), hb, element_tails(b), r2);
    lemma_word_prefix_free(a.len(), ha + ta, b.len(), hb + tb);
    lemma_element_heads_len(a, a.len());
    lemma_element_heads_len(b, b.len());
    lemma_concat_parts(ha, ta, hb, tb);
    lemma_element_tails_injective(a, r1, b, r2);
}


/// The tail of a dynamic field tells where it ends.
pub proof fn lemma_field_tail_prefix_free(f: FieldView, r1: Seq<u8>, g: FieldView, r2: Seq<u8>)
    requires
        same_kind(f, g),
        valid_field(f),
        valid_field(g),
        field_tail(f) + r1 == field_tail(g) + r2,
    ensures
        r1 == r2,
        is_dynamic(f) ==> f == g,
{
    match f {
        FieldView::Bytes(x) => {
            lemma_dynamic_bytes_prefix_free(x, r1, g->Bytes_0, r2);
        },
        FieldView::TokenArray(ts) => {
            lemma_token_array_prefix_free(ts, r1, g->TokenArray_0, r2);
        },
        _ => {
            lemma_concat_empty(r1);
            lemma_concat_empty(r2);
        },
    }
}

/// The tails of a tuple begin with that of its first field.
pub proof fn lemma_tails_front(fs: Seq<FieldView>)
    requires
        fs.len() > 0,
    ensures
        tails(fs) == field_tail(fs.first()) + tails(fs.drop_first()),
    decreases fs.len(),
{
    let init = fs.drop_last();
    let rest = fs.drop_first();
    if fs.len() == 1 {
        assert(tails(init) == Seq::<u8>::empty());
        assert(tails(rest) == Seq::<u8>::empty());
        lemma_concat_empty(field_tail(fs.first()));
    } else {
        lemma_tails_front(init);
        assert(init.drop_first() =~= rest.drop_last());
        assert(init.first() == fs.first());
        assert(rest.last() == fs.last());
        lemma_concat_assoc(field_tail(fs.first()), tails(rest.drop_last()), field_tail(fs.last()));
    }
}

/// Where the tails of two tuples agree, whatever follows, so do the tails
/// of their first fields followed by the rest.
pub proof fn lemma_tails_step(a: Seq<FieldView>, r1: Seq<u8>, b: Seq<FieldView>, r2: Seq<u8>)
    requires
        a.len() > 0,
        b.len() > 0,
        tails(a) + r1 == tails(b) + r2,
    ensures
        field_tail(a.first()) + (tails(a.drop_first()) + r1) == field_tail(b.first()) + (tails(
            b.drop_first(),
        ) + r2),
{
    lemma_tails_front(a);
    lemma_tails_front(b);
    lemma_concat_assoc(field_tail(a.first()), tails(a.drop_first()), r1);
    lemma_concat_assoc(field_tail(b.first()), tails(b.drop_first()), r2);
}

/// Shape and validity pass on to a tuple without its first field.
pub proof fn lemma_shape_drop_first(a: Seq<FieldView>, b: Seq<FieldView>)
    requires
        same_shape(a, b),
        valid_fields(a),
        valid_fields(b),
        a.len() > 0,
    ensures
        same_shape(a.drop_first(), b.drop_first()),
        valid_fields(a.drop_first()),
        valid_fields(b.drop_first()),
        same_kind(a.first(), b.first()),
        valid_field(a.first()),
        valid_field(b.first()),
{
    assert(same_kind(a[0], b[0]));
    assert(valid_field(a[0]) && valid_field(b[0]));
    assert forall|i: int| 0 <= i < a.drop_first().len() implies same_kind(
        #[trigger] a.drop_first()[i],
        b.drop_first()[i],
    ) by {
        assert(same_kind(a[i + 1], b[i + 1]));
    }
    assert forall|i: int| 0 <= i < a.drop_first().len() implies valid_field(
        #[trigger] a.drop_first()[i],
    ) by {
        assert(valid_field(a[i + 1]));
    }
    assert forall|i: int| 0 <= i < b.drop_first().len() implies valid_field(
        #[trigger] b.drop_first()[i],
    ) by {
        assert(valid_field(b[i + 1]));
    }
}

/// Shape and validity pass on to a tuple without its last field.
pub proof fn lemma_shape_drop_last(a: Seq<FieldView>, b: Seq<FieldView>)
    requires
        same_shape(a, b),
        valid_fields(a),
        valid_fields(b),
        a.len() > 0,
    ensures
        same_shape(a.drop_last(), b.drop_last()),
        valid_fields(a.drop_last()),
        valid_fields(b.drop_last()),
        same_kind(a.last(), b.last()),
        valid_field(a.last()),
        valid_field(b.last()),
{
    let k = a.len() - 1;
    assert(same_kind(a[k], b[k]));
    assert(valid_field(a[k]) && valid_field(b[k]));
    assert forall|i: int| 0 <= i < a.drop_last().len() implies same_kind(
        #[trigger] a.drop_last()[i],
        b.drop_last()[i],
    ) by {
        assert(same_kind(a[i], b[i]));
    }
    assert forall|i: int| 0 <= i < a.drop_last().len() implies valid_field(
        #[trigger] a.drop_last()[i],
    ) by {
        assert(valid_field(a[i]));
    }
    assert forall|i: int| 0 <= i < b.drop_last().len() implies valid_field(
        #[trigger] b.drop_last()[i],
    ) by {
        assert(valid_field(b[i]));
    }
}

/// Whether two tuples agree on every dynamic field.
pub open spec fn dynamic_fields_agree(a: Seq<FieldView>, b: Seq<FieldView>) -> bool {
    forall|i: int| 0 <= i < a.len() && is_dynamic(#[trigger] a[i]) ==> a[i] == b[i]
}

/// Whether two tuples agree on every static field.
pub open spec fn static_fields_agree(a: Seq<FieldView>, b: Seq<FieldView>) -> bool {
    forall|i: int| 0 <= i < a.len() && !is_dynamic(#[trigger] a[i]) ==> a[i] == b[i]
}

/// Two tuples of one shape with the same tails, whatever follows, have
/// the same dynamic fields.
pub proof fn lemma_tails_injective(a: Seq<FieldView>, r1: Seq<u8>, b: Seq<FieldView>, r2: Seq<u8>)
    requires
        same_shape(a, b),
        valid_fields(a),
        valid_fields(b),
        tails(a) + r1 == tails(b) + r2,
    ensures
        r1 == r2,
        dynamic_fields_agree(a, b),
    decreases a.len(),
{
    if a.len() == 0 {
        lemma_concat_empty(r1);
        lemma_concat_empty(r2);
    } else {
        let ra = tails(a.drop_first()) + r1;
        let rb = tails(b.drop_first()) + r2;
        lemma_tails_step(a, r1, b, r2);
        lemma_shape_drop_first(a, b);
        lemma_field_tail_prefix_free(a.first(), ra, b.first(), rb);
        lemma_tails_injective(a.drop_first(), r1, b.drop_first(), r2);
        assert forall|i: int| 0 <= i < a.len() && is_dynamic(#[trigger] a[i]) implies a[i]
            == b[i] by {
            if i > 0 {
                assert(a.drop_first()[i - 1] == a[i]);
                assert(b.drop_first()[i - 1] == b[i]);
            }
        }
    }
}

/// The head of a valid tuple takes one word for each field.
pub proof fn lemma_heads_len(fs: Seq<FieldView>, base: nat)
    requires
        valid_fields(fs),
    ensures
        heads(fs, base).len() == 32 * fs.len(),
    decreases fs.len(),
{
    if fs.len() > 0 {
        let init = fs.drop_last();
        lemma_shape_drop_last(fs, fs);
        lemma_heads_len(init, base);
        lemma_word_len(base + tails(init).len());
        match fs.last() {
            FieldView::Uint(n) => {
                lemma_word_len(n);
            },
            _ => {},
        }
    }
}

/// Two tuples of one shape with the same heads have the same static
/// fields.
pub proof fn lemma_heads_injective(a: Seq<FieldView>, base_a: nat, b: Seq<FieldView>, base_b: nat)
    requires
        same_shape(a, b),
        valid_fields(a),
        valid_fields(b),
        heads(a, base_a) == heads(b, base_b),
    ensures
        static_fields_agree(a, b),
    decreases a.len(),
{
    if a.len() > 0 {
        let ia = a.drop_last();
        let ib = b.drop_last();
        let la = field_head(a.last(), base_a + tails(ia).len());
        let lb = field_head(b.last(), base_b + tails(ib).len());
        lemma_shape_drop_last(a, b);
        lemma_heads_len(ia, base_a);
        lemma_heads_len(ib, base_b);
        lemma_concat_parts(heads(ia, base_a), la, heads(ib, base_b), lb);
        lemma_heads_injective(ia, base_a, ib, base_b);
        let k = a.len() - 1;
        assert(!is_dynamic(a.last()) ==> a.last() == b.last()) by {
            match a.last() {
                FieldView::Uint(n) => {
                    lemma_word_injective(n, b.last()->Uint_0);
                },
                _ => {},
            }
        }
        assert forall|i: int| 0 <= i < a.len() && !is_dynamic(#[trigger] a[i]) implies a[i]
            == b[i] by {
            if i < k {
                assert(ia[i] == a[i]);
                assert(ib[i] == b[i]);
            }
        }
    }
}

/// The tuple encoding is injective on valid tuples of one shape.
pub proof fn lemma_tuple_encoding_injective(a: Seq<FieldView>, b: Seq<FieldView>)
    requires
        same_shape(a, b),
        valid_fields(a),
        valid_fields(b),
        tuple_encoding(a) == tuple_encoding(b),
    ensures
        a == b,
{
    let base = 32 * a.len();
    lemma_heads_len(a, base);
    lemma_heads_len(b, base);
    lemma_concat_parts(heads(a, base), tails(a), heads(b, base), tails(b));
    lemma_heads_injective(a, base, b, base);
    lemma_concat_empty(tails(a));
    lemma_concat_empty(tails(b));
    lemma_tails_injective(a, Seq::empty(), b, Seq::empty());
    assert forall|i: int| 0 <= i < a.len() implies a[i] == b[i] by {
        if is_dynamic(a[i]) {
        }
    }
    assert(a =~= b);
}

} // verus!
