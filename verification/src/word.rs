//! Fixed-width words: the 32-byte big-endian cells that every encoded value
//! is built from.

use vstd::prelude::*;

verus! {

/// `256^k`.
pub open spec fn pow256(k: nat) -> nat
    decreases k,
{
    if k == 0 {
        1
    } else {
        256 * pow256((k - 1) as nat)
    }
}

/// The `len` least significant base-256 digits of `n`, most significant first.
pub open spec fn be_bytes(n: nat, len: nat) -> Seq<u8>
    decreases len,
{
    if len == 0 {
        Seq::empty()
    } else {
        be_bytes(n / 256, (len - 1) as nat).push((n % 256) as u8)
    }
}

/// The number that a byte string denotes when read big-endian.
pub open spec fn be_value(s: Seq<u8>) -> nat
    decreases s.len(),
{
    if s.len() == 0 {
        0
    } else {
        be_value(s.drop_last()) * 256 + s.last() as nat
    }
}

/// The 32-byte word holding `n`, right-aligned.
pub open spec fn word(n: nat) -> Seq<u8> {
    be_bytes(n, 32)
}

/// `n` zero bytes.
pub open spec fn zeros(n: nat) -> Seq<u8> {
    Seq::new(n, |i: int| 0u8)
}

/// One past the largest value of a 128-bit unsigned integer.
pub open spec fn two_pow_128() -> nat {
    0x1_0000_0000_0000_0000_0000_0000_0000_0000nat
}

/// One past the largest value that a word can hold.
pub open spec fn two_pow_256() -> nat {
    two_pow_128() * two_pow_128()
}

/// An unsigned 256-bit integer, held as two 128-bit halves.
#[derive(Debug, Clone, Copy, PartialEq, Eq)]
pub struct U256 {
    pub hi: u128,
    pub lo: u128,
}

impl View for U256 {
    type V = nat;

    open spec fn view(&self) -> nat {
        self.hi as nat * two_pow_128() + self.lo as nat
    }
}

/// The powers of 256 that the proofs about words use.
pub proof fn lemma_pow256_values()
    ensures
        pow256(0) == 1,
        pow256(1) == 0x100,
        pow256(4) == 0x1_0000_0000,
        pow256(8) == 0x1_0000_0000_0000_0000,
        pow256(15) == 0x1_0000_0000_0000_0000_0000_0000_0000_00,
        pow256(16) == two_pow_128(),
{
    reveal_with_fuel(pow256, 17);
}

/// Powers of 256 multiply by adding exponents.
pub proof fn lemma_pow256_add(a: nat, b: nat)
    ensures
        pow256(a + b) == pow256(a) * pow256(b),
    decreases a,
{
    if a == 0 {
        assert(pow256(b) == 1 * pow256(b));
    } else {
        lemma_pow256_add((a - 1) as nat, b);
        assert(pow256(a + b) == 256 * pow256((a - 1 + b) as nat));
        assert(256 * (pow256((a - 1) as nat) * pow256(b)) == (256 * pow256((a - 1) as nat))
            * pow256(b)) by (nonlinear_arith);
    }
}

/// Powers of 256 grow with the exponent and are never zero.
pub proof fn lemma_pow256_monotonic(a: nat, b: nat)
    requires
        a <= b,
    ensures
        pow256(a) <= pow256(b),
        pow256(a) >= 1,
    decreases b,
{
    if a < b {
        lemma_pow256_monotonic(a, (b - 1) as nat);
    } else if a > 0 {
        lemma_pow256_monotonic((a - 1) as nat, (a - 1) as nat);
    }
}

/// A word holds 32 digits.
pub proof fn lemma_pow256_32()
    ensures
        pow256(32) == two_pow_256(),
{
    lemma_pow256_values();
    lemma_pow256_add(16, 16);
}

/// A number written with `len` digits has `len` bytes.
pub proof fn lemma_be_bytes_len(n: nat, len: nat)
    ensures
        be_bytes(n, len).len() == len,
    decreases len,
{
    if len > 0 {
        lemma_be_bytes_len(n / 256, (len - 1) as nat);
    }
}

/// Reading back the digits of a number that fits gives the number.
pub proof fn lemma_be_value_of_be_bytes(n: nat, len: nat)
    requires
        n < pow256(len),
    ensures
        be_value(be_bytes(n, len)) == n,
    decreases len,
{
    if len > 0 {
        let rest = be_bytes(n / 256, (len - 1) as nat);
        lemma_be_value_of_be_bytes(n / 256, (len - 1) as nat);
        assert(rest.push((n % 256) as u8).drop_last() =~= rest);
    }
}

/// A byte string denotes a number below `256^len`.
pub proof fn lemma_be_value_bound(s: Seq<u8>)
    ensures
        be_value(s) < pow256(s.len()),
    decreases s.len(),
{
    if s.len() > 0 {
        lemma_be_value_bound(s.drop_last());
    }
}

/// Writing out the number that a byte string denotes gives the string back.
pub proof fn lemma_be_bytes_of_be_value(s: Seq<u8>)
    ensures
        be_bytes(be_value(s), s.len()) == s,
    decreases s.len(),
{
    if s.len() > 0 {
        lemma_be_bytes_of_be_value(s.drop_last());
        assert(s.drop_last().push(s.last()) =~= s);
    }
}

/// Digits of a number split at any position into the digits of its
/// quotient and of its remainder.
pub proof fn lemma_be_bytes_split(a: nat, b: nat, m: nat, k: nat)
    requires
        b < pow256(k),
    ensures
        be_bytes(a * pow256(k) + b, m + k) == be_bytes(a, m) + be_bytes(b, k),
    decreases k,
{
    if k == 0 {
        assert(a * pow256(0) == a) by (nonlinear_arith)
            requires
                pow256(0) == 1,
        ;
        assert(be_bytes(a, m) + be_bytes(b, 0) =~= be_bytes(a, m));
    } else {
        let p = pow256((k - 1) as nat);
        let n = a * pow256(k) + b;
        assert(a * pow256(k) == (a * p) * 256) by (nonlinear_arith)
            requires
                pow256(k) == 256 * p,
        ;
        assert(n / 256 == a * p + b / 256);
        assert(n % 256 == b % 256);
        lemma_be_bytes_split(a, b / 256, m, (k - 1) as nat);
        assert(be_bytes(n, m + k) =~= be_bytes(a, m) + be_bytes(b, k));
    }
}

/// Big-endian reading of a concatenation.
pub proof fn lemma_be_value_concat(a: Seq<u8>, b: Seq<u8>)
    ensures
        be_value(a + b) == be_value(a) * pow256(b.len()) + be_value(b),
    decreases b.len(),
{
    if b.len() == 0 {
        assert(a + b =~= a);
        assert(be_value(a) * pow256(0) == be_value(a)) by (nonlinear_arith)
            requires
                pow256(0) == 1,
        ;
    } else {
        let init = b.drop_last();
        let p = pow256(init.len());
        lemma_be_value_concat(a, init);
        assert((a + b).drop_last() =~= a + init);
        assert((a + b).last() == b.last());
        assert(be_value(a + b) == be_value(a + init) * 256 + b.last() as nat);
        assert(pow256(b.len()) == 256 * p);
        assert((be_value(a) * p + be_value(init)) * 256 == be_value(a) * (256 * p) + be_value(
            init,
        ) * 256) by (nonlinear_arith);
    }
}

/// Two numbers that fit in a word and have the same word are equal.
pub proof fn lemma_word_injective(a: nat, b: nat)
    requires
        a < two_pow_256(),
        b < two_pow_256(),
        word(a) == word(b),
    ensures
        a == b,
{
    lemma_pow256_32();
    lemma_be_value_of_be_bytes(a, 32);
    lemma_be_value_of_be_bytes(b, 32);
}

/// Every value of a `U256` fits in a word.
pub proof fn lemma_u256_fits(v: U256)
    ensures
        v@ < two_pow_256(),
{
    assert((v.hi as nat) * two_pow_128() + (v.lo as nat) < two_pow_128() * two_pow_128())
        by (nonlinear_arith)
        requires
            v.hi < two_pow_128(),
            v.lo < two_pow_128(),
    ;
}


impl U256 {
    /// The value `lo`, widened.
    pub fn from_u128(lo: u128) -> (v: U256)
        ensures
            v@ == lo as nat,
            v == (U256 { hi: 0, lo }),
    {
        assert(0 * two_pow_128() == 0);
        U256 { hi: 0, lo }
    }

    /// The value as a 128-bit integer, where it fits.
    pub fn narrow(&self) -> (r: Option<u128>)
        ensures
            self@ < two_pow_128() ==> r == Some(self@ as u128),
            self@ >= two_pow_128() ==> r.is_none(),
    {
        proof {
            assert(self.hi >= 1 ==> (self.hi as nat) * two_pow_128() >= two_pow_128())
                by (nonlinear_arith);
            assert(self.hi == 0 ==> (self.hi as nat) * two_pow_128() == 0) by (nonlinear_arith);
        }
        if self.hi == 0 {
            Some(self.lo)
        } else {
            None
        }
    }
}

/// Appends `src` to `out`.
pub fn append_bytes(out: &mut Vec<u8>, src: &[u8])
    ensures
        final(out)@ == old(out)@ + src@,
{
    let n = src.len();
    let mut i: usize = 0;
    while i < n
        invariant
            n == src@.len(),
            i <= n,
            out@ == old(out)@ + src@.subrange(0, i as int),
        decreases n - i,
    {
        out.push(src[i]);
        i = i + 1;
    }
    assert(src@.subrange(0, n as int) =~= src@);
}

/// Appends `n` zero bytes to `out`.
pub fn append_zeros(out: &mut Vec<u8>, n: usize)
    ensures
        final(out)@ == old(out)@ + zeros(n as nat),
{
    let mut i: usize = 0;
    while i < n
        invariant
            i <= n,
            out@ == old(out)@ + zeros(i as nat),
        decreases n - i,
    {
        out.push(0u8);
        i = i + 1;
    }
}

/// The sixteen big-endian bytes of `x`.
pub fn half_word(x: u128) -> (w: [u8; 16])
    ensures
        w@ == be_bytes(x as nat, 16),
{
    let mut w: [u8; 16] = [0u8; 16];
    let mut rest: u128 = x;
    let mut i: usize = 16;
    proof {
        lemma_be_bytes_len(x as nat, 16);
        assert(be_bytes(x as nat, 16) =~= be_bytes(rest as nat, 16) + w@.subrange(16, 16));
    }
    while i > 0
        invariant
            i <= 16,
            be_bytes(x as nat, 16) == be_bytes(rest as nat, i as nat) + w@.subrange(i as int, 16),
        decreases i,
    {
        let digit: u8 = (rest % 256) as u8;
        let ghost before = w@;
        i = i - 1;
        w[i] = digit;
        proof {
            let left = be_bytes((rest / 256) as nat, i as nat);
            lemma_be_bytes_len((rest / 256) as nat, i as nat);
            assert(w@.subrange(i as int, 16) =~= seq![digit] + before.subrange(i + 1, 16));
            assert(left.push(digit) + before.subrange(i + 1, 16) =~= left + w@.subrange(
                i as int,
                16,
            ));
        }
        rest = rest / 256;
    }
    proof {
        assert(be_bytes(rest as nat, 0) + w@.subrange(0, 16) =~= w@);
    }
    w
}

/// Appends the 32-byte word of `v` to `out`.
pub fn push_word(out: &mut Vec<u8>, v: U256)
    ensures
        final(out)@ == old(out)@ + word(v@),
{
    let hi = half_word(v.hi);
    let lo = half_word(v.lo);
    proof {
        lemma_pow256_values();
        lemma_be_bytes_split(v.hi as nat, v.lo as nat, 16, 16);
    }
    append_bytes(out, hi.as_slice());
    append_bytes(out, lo.as_slice());
    assert(out@ =~= old(out)@ + word(v@));
}

/// Appends the 32-byte word of `x` to `out`.
pub fn push_word_u128(out: &mut Vec<u8>, x: u128)
    ensures
        final(out)@ == old(out)@ + word(x as nat),
{
    push_word(out, U256::from_u128(x));
}

/// Reads sixteen big-endian bytes of `src`, starting at `at`.
pub fn read_half_word(src: &[u8], at: usize) -> (x: u128)
    requires
        at + 16 <= src@.len(),
    ensures
        x as nat == be_value(src@.subrange(at as int, at + 16)),
{
    let n = src.len();
    let mut x: u128 = 0;
    let mut i: usize = 0;
    while i < 16
        invariant
            i <= 16,
            at + 16 <= src@.len(),
            n == src@.len(),
            x as nat == be_value(src@.subrange(at as int, at + i)),
            x < pow256(i as nat),
        decreases 16 - i,
    {
        proof {
            lemma_pow256_values();
            let next = src@.subrange(at as int, at + i + 1);
            assert(next.drop_last() =~= src@.subrange(at as int, at + i));
            assert(pow256((i + 1) as nat) == 256 * pow256(i as nat));
            lemma_pow256_monotonic((i + 1) as nat, 16);
        }
        x = x * 256 + src[at + i] as u128;
        i = i + 1;
    }
    x
}

/// Reads the 32-byte word of `src` that starts at `at`.
pub fn read_word(src: &[u8], at: usize) -> (v: U256)
    requires
        at + 32 <= src@.len(),
    ensures
        v@ == be_value(src@.subrange(at as int, at + 32)),
{
    let n = src.len();
    let hi = read_half_word(src, at);
    let lo = read_half_word(src, at + 16);
    proof {
        let a = src@.subrange(at as int, at + 16);
        let b = src@.subrange(at + 16, at + 32);
        lemma_be_value_concat(a, b);
        lemma_pow256_values();
        assert(a + b =~= src@.subrange(at as int, at + 32));
    }
    U256 { hi, lo }
}

} // verus!
