//! Byte strings as numbers.

use vstd::prelude::*;

use vstd::arithmetic::power2::pow2;

verus! {

/// The number that a byte string denotes, most significant byte first.
pub open spec fn be_value(bytes: Seq<u8>) -> nat
    decreases bytes.len(),
{
    if bytes.len() == 0 {
        0
    } else {
        be_value(bytes.drop_last()) * 256 + bytes.last() as nat
    }
}

/// Whether two byte strings are the same.
pub fn same_bytes(a: &[u8], b: &[u8]) -> (r: bool)
    ensures
        r == (a@ == b@),
{
    if a.len() != b.len() {
        return false;
    }
    let mut i: usize = 0;
    while i < a.len()
        invariant
            i <= a.len() == b.len(),
            forall|j: int| 0 <= j < i ==> a@[j] == b@[j],
        decreases a.len() - i,
    {
        if a[i] != b[i] {
            return false;
        }
        i += 1;
    }
    assert(a@ =~= b@);
    true
}

/// `a` followed by `b`.
pub fn concat(a: &[u8], b: &[u8]) -> (out: Vec<u8>)
    ensures
        out@ == a@ + b@,
{
    let mut out: Vec<u8> = vstd::slice::slice_to_vec(a);
    let mut i: usize = 0;
    while i < b.len()
        invariant
            i <= b.len(),
            out@ == a@ + b@.take(i as int),
        decreases b.len() - i,
    {
        out.push(b[i]);
        i += 1;
        assert(b@.take(i as int) =~= b@.take(i - 1).push(b@[i - 1]));
    }
    assert(b@.take(i as int) =~= b@);
    out
}

/// A number of `n` bytes is below 2^(8n), and not below 2^(8(n-1)) times its
/// first byte.
pub proof fn be_value_bounds(bytes: Seq<u8>)
    ensures
        be_value(bytes) < pow2(8 * bytes.len()),
        bytes.len() > 0 ==> bytes[0] * pow2((8 * (bytes.len() - 1)) as nat) <= be_value(bytes)
            < (bytes[0] + 1) * pow2((8 * (bytes.len() - 1)) as nat),
    decreases bytes.len(),
{
    vstd::arithmetic::power2::lemma2_to64();
    if bytes.len() == 1 {
        assert(be_value(bytes.drop_last()) == 0);
        assert(8 * bytes.len() == 8);
        assert((8 * (bytes.len() - 1)) as nat == 0);
        assert(bytes[0] * pow2(0) == bytes[0] && (bytes[0] + 1) * pow2(0) == bytes[0] + 1);
    } else if bytes.len() > 1 {
        let head = bytes.drop_last();
        be_value_bounds(head);
        assert(head[0] == bytes[0]);
        let p = pow2((8 * (head.len() - 1)) as nat);
        vstd::arithmetic::power2::lemma_pow2_adds((8 * (head.len() - 1)) as nat, 8);
        assert((8 * (head.len() - 1)) as nat + 8 == (8 * (bytes.len() - 1)) as nat);
        assert(pow2((8 * (bytes.len() - 1)) as nat) == p * 256);
        vstd::arithmetic::power2::lemma_pow2_adds(8 * head.len(), 8);
        assert(8 * head.len() + 8 == 8 * bytes.len());
        assert(bytes[0] * (p * 256) == (bytes[0] * p) * 256) by (nonlinear_arith);
        assert((bytes[0] + 1) * (p * 256) == ((bytes[0] + 1) * p) * 256) by (nonlinear_arith);
    }
}

/// The number that two byte strings denote one after the other.
pub proof fn be_value_concat(a: Seq<u8>, b: Seq<u8>)
    ensures
        be_value(a + b) == be_value(a) * pow2(8 * b.len()) + be_value(b),
    decreases b.len(),
{
    vstd::arithmetic::power2::lemma2_to64();
    if b.len() == 0 {
        assert(a + b =~= a);
        assert(be_value(a) * 1 == be_value(a));
    } else {
        let head = b.drop_last();
        be_value_concat(a, head);
        assert((a + b).drop_last() =~= a + head);
        vstd::arithmetic::power2::lemma_pow2_adds(8 * head.len(), 8);
        assert(8 * head.len() + 8 == 8 * b.len());
        let p = pow2(8 * head.len());
        assert((be_value(a) * p) * 256 == be_value(a) * (p * 256)) by (nonlinear_arith);
    }
}

/// Leading zero bytes do not change the number.
pub proof fn leading_zeros_are_void(bytes: Seq<u8>, k: nat)
    requires
        k <= bytes.len(),
        forall|i: int| 0 <= i < k ==> bytes[i] == 0,
    ensures
        be_value(bytes.skip(k as int)) == be_value(bytes),
    decreases bytes.len(),
{
    if k < bytes.len() {
        let head = bytes.drop_last();
        leading_zeros_are_void(head, k);
        assert(bytes.skip(k as int).drop_last() =~= head.skip(k as int));
    } else if k > 0 {
        leading_zeros_are_void(bytes.drop_last(), (k - 1) as nat);
        assert(bytes.drop_last().skip(k - 1) =~= bytes.skip(k as int));
    } else {
        assert(bytes.skip(0) =~= bytes);
    }
}

/// How many binary digits a number has; zero has none.
pub open spec fn bit_length(value: nat) -> nat
    decreases value,
{
    if value == 0 {
        0
    } else {
        1 + bit_length(value / 2)
    }
}

/// A number of bit length n is below 2^n and, unless it is zero, not below 2^(n-1).
pub proof fn bit_length_bounds(value: nat)
    ensures
        is_bit_length(value, bit_length(value)),
    decreases value,
{
    if value > 0 {
        bit_length_bounds(value / 2);
        let n = bit_length(value / 2);
        vstd::arithmetic::power2::lemma2_to64();
        vstd::arithmetic::power2::lemma_pow2_unfold(n + 1);
        if n > 0 {
            vstd::arithmetic::power2::lemma_pow2_unfold(n);
        }
    }
}

/// `n` is how many binary digits `value` has; zero has none.
pub open spec fn is_bit_length(value: nat, n: nat) -> bool {
    if value == 0 {
        n == 0
    } else {
        n > 0 && pow2((n - 1) as nat) <= value < pow2(n)
    }
}

/// A number has one bit length only.
pub proof fn bit_length_is_unique(value: nat, m: nat, n: nat)
    requires
        is_bit_length(value, m),
        is_bit_length(value, n),
    ensures
        m == n,
{
    if value > 0 {
        if m < n {
            if m < n - 1 {
                vstd::arithmetic::power2::lemma_pow2_strictly_increases(m, (n - 1) as nat);
            }
        } else if n < m {
            if n < m - 1 {
                vstd::arithmetic::power2::lemma_pow2_strictly_increases(n, (m - 1) as nat);
            }
        }
    }
}

/// How many binary digits a byte has.
fn byte_bits(b: u8) -> (n: usize)
    ensures
        is_bit_length(b as nat, n as nat),
        n <= 8,
{
    proof {
        vstd::arithmetic::power2::lemma2_to64();
    }
    if b >= 128 {
        8
    } else if b >= 64 {
        7
    } else if b >= 32 {
        6
    } else if b >= 16 {
        5
    } else if b >= 8 {
        4
    } else if b >= 4 {
        3
    } else if b >= 2 {
        2
    } else if b == 1 {
        1
    } else {
        0
    }
}

/// The bit length of a big-endian unsigned integer, which is the form in which
/// tokens give an RSA modulus.  Leading zero bytes do not count, and zero has
/// bit length 0.
pub fn rsa_modulus_bit_length(modulus: &[u8]) -> (bits: usize)
    requires
        modulus@.len() * 8 <= usize::MAX,
    ensures
        bits == bit_length(be_value(modulus@)),
{
    let mut i: usize = 0;
    while i < modulus.len() && modulus[i] == 0
        invariant
            i <= modulus.len(),
            forall|j: int| 0 <= j < i ==> modulus@[j] == 0,
        decreases modulus.len() - i,
    {
        i += 1;
    }
    let ghost rest = modulus@.skip(i as int);
    proof {
        leading_zeros_are_void(modulus@, i as nat);
        be_value_bounds(rest);
        assert(be_value(rest) == be_value(modulus@));
    }
    if i == modulus.len() {
        return 0;
    }
    let high: usize = byte_bits(modulus[i]);
    let below: usize = (modulus.len() - i - 1) * 8;
    proof {
        let p = pow2(below as nat);
        let b = modulus@[i as int];
        assert(rest[0] == b && rest.len() == modulus@.len() - i);
        vstd::arithmetic::power2::lemma_pow2_pos(below as nat);
        vstd::arithmetic::power2::lemma_pow2_adds(below as nat, high as nat);
        vstd::arithmetic::power2::lemma_pow2_adds(below as nat, (high - 1) as nat);
        vstd::arithmetic::power2::lemma_pow2_pos((high - 1) as nat);
        let top = pow2(high as nat);
        let bottom = pow2((high - 1) as nat);
        assert((b + 1) * p <= top * p) by (nonlinear_arith)
            requires
                b + 1 <= top,
                p > 0,
        ;
        assert(bottom * p <= b * p) by (nonlinear_arith)
            requires
                bottom <= b,
                p > 0,
        ;
        assert(top * p == p * top && bottom * p == p * bottom) by (nonlinear_arith);
        assert(bottom * p > 0) by (nonlinear_arith)
            requires
                bottom > 0,
                p > 0,
        ;
        bit_length_bounds(be_value(modulus@));
        bit_length_is_unique(
            be_value(modulus@),
            bit_length(be_value(modulus@)),
            (below + high) as nat,
        );
    }
    below + high
}

} // verus!
