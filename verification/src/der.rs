//! The fragments of DER that keys on tokens come in.

use vstd::prelude::*;

use crate::bytes;
use crate::error;
use crate::error::Error;
use crate::hexcode;
use crate::openpgp;
use crate::openpgp::{Curve, HashAlgorithm};
use crate::text;

verus! {

// ---------------------------------------------------------------------------
// Lengths and octet strings
// ---------------------------------------------------------------------------

/// The length that a DER encoding starts with, and how many bytes state it.
///
/// A first byte below 0x80 is the length itself.  Otherwise its low seven bits say
/// how many bytes follow that hold the length, most significant byte first; there
/// is at least one, and no more than the machine's word has.
pub open spec fn der_length(b: Seq<u8>) -> Result<(nat, nat), Seq<char>> {
    if b.len() == 0 {
        Err("DER length missing"@)
    } else if b[0] < 0x80 {
        Ok((b[0] as nat, 1))
    } else {
        let n = (b[0] - 0x80) as nat;
        if n == 0 || 8 * n > usize::BITS {
            Err("DER long-form length count "@ + text::decimal_text(n) + " unsupported"@)
        } else if b.len() - 1 < n {
            Err("DER long-form length truncated"@)
        } else {
            Ok((bytes::be_value(b.subrange(1, (1 + n) as int)), n + 1))
        }
    }
}

/// A number of `k` bytes fits a machine word that has `k` bytes.
proof fn fits_word(b: Seq<u8>)
    requires
        8 * b.len() <= usize::BITS,
    ensures
        bytes::be_value(b) <= usize::MAX,
{
    bytes::be_value_bounds(b);
    vstd::arithmetic::power2::lemma2_to64();
    if 8 * b.len() < usize::BITS {
        vstd::arithmetic::power2::lemma_pow2_strictly_increases(
            8 * b.len(),
            usize::BITS as nat,
        );
    }
}

/// Reads the length that `b` starts with; what follows it is handed back too.
pub fn parse_der_length(b: &[u8]) -> (r: Result<(usize, &[u8]), Error>)
    ensures
        match der_length(b@) {
            Ok((len, taken)) => r matches Ok((l, rest)) && l == len && rest@ == b@.skip(
                taken as int,
            ),
            Err(message) => error::fails_with(r, error::ErrorView::UnsupportedKeyType(message)),
        },
{
    if b.len() == 0 {
        return Err(Error::UnsupportedKeyType("DER length missing".to_owned()));
    }
    let first: u8 = b[0];
    if first < 0x80 {
        let rest = vstd::slice::slice_subrange(b, 1, b.len());
        assert(rest@ =~= b@.skip(1));
        return Ok((first as usize, rest));
    }
    let n: usize = (first - 0x80) as usize;
    if n == 0 || 8 * n > usize::BITS as usize {
        return Err(
            Error::UnsupportedKeyType(
                text::join3(
                    "DER long-form length count ",
                    text::decimal(n as u64).as_str(),
                    " unsupported",
                ),
            ),
        );
    }
    if b.len() - 1 < n {
        return Err(Error::UnsupportedKeyType("DER long-form length truncated".to_owned()));
    }
    let ghost field = b@.subrange(1, 1 + n);
    let mut len: usize = 0;
    let mut i: usize = 0;
    assert(field.take(0) =~= Seq::empty());
    while i < n
        invariant
            i <= n < b.len(),
            8 * n <= usize::BITS,
            field == b@.subrange(1, 1 + n),
            len == bytes::be_value(field.take(i as int)),
        decreases n - i,
    {
        proof {
            assert(field.take(i + 1).drop_last() =~= field.take(i as int));
            assert(field.take(i + 1).last() == b@[1 + i]);
            fits_word(field.take(i + 1));
        }
        len = len * 256 + b[1 + i] as usize;
        i += 1;
    }
    assert(field.take(n as int) =~= field);
    let rest = vstd::slice::slice_subrange(b, 1 + n, b.len());
    assert(rest@ =~= b@.skip(1 + n));
    Ok((len, rest))
}

/// What an encoded octet string holds.  The point of a key, `CKA_EC_POINT`, comes
/// in this form; bytes behind the string are ignored.
pub open spec fn octet_string(der: Seq<u8>) -> Result<Seq<u8>, Seq<char>> {
    if der.len() == 0 || der[0] != 0x04 {
        Err("CKA_EC_POINT is not a DER OCTET STRING"@)
    } else {
        match der_length(der.skip(1)) {
            Err(message) => Err(message),
            Ok((len, taken)) => if der.len() < 1 + taken + len {
                Err("CKA_EC_POINT length exceeds buffer"@)
            } else {
                Ok(der.subrange((1 + taken) as int, (1 + taken + len) as int))
            },
        }
    }
}

/// Unwraps the octet string that `der` starts with.
pub fn unwrap_octet_string(der: &[u8]) -> (r: Result<Vec<u8>, Error>)
    ensures
        match octet_string(der@) {
            Ok(content) => r matches Ok(v) && v@ == content,
            Err(message) => error::fails_with(r, error::ErrorView::UnsupportedKeyType(message)),
        },
{
    if der.len() == 0 || der[0] != 0x04 {
        return Err(
            Error::UnsupportedKeyType("CKA_EC_POINT is not a DER OCTET STRING".to_owned()),
        );
    }
    let after_tag = vstd::slice::slice_subrange(der, 1, der.len());
    assert(after_tag@ =~= der@.skip(1));
    let (len, body): (usize, &[u8]) = match parse_der_length(after_tag) {
        Ok(parsed) => parsed,
        Err(e) => {
            return Err(e);
        },
    };
    if body.len() < len {
        return Err(Error::UnsupportedKeyType("CKA_EC_POINT length exceeds buffer".to_owned()));
    }
    let content = vstd::slice::slice_subrange(body, 0, len);
    proof {
        let taken = der_length(after_tag@)->Ok_0.1;
        assert(content@ =~= der@.subrange((1 + taken) as int, (1 + taken + len) as int));
    }
    Ok(vstd::slice::slice_to_vec(content))
}

// ---------------------------------------------------------------------------
// Curves
// ---------------------------------------------------------------------------

/// The object identifiers of the NIST curves: 1.2.840.10045.3.1.7, 1.3.132.0.34
/// and 1.3.132.0.35.
pub open spec fn curve_of_oid(oid: Seq<u8>) -> Option<openpgp::CurveView> {
    if oid == seq![0x2au8, 0x86, 0x48, 0xce, 0x3d, 0x03, 0x01, 0x07] {
        Some(openpgp::CurveView::NistP256)
    } else if oid == seq![0x2bu8, 0x81, 0x04, 0x00, 0x22] {
        Some(openpgp::CurveView::NistP384)
    } else if oid == seq![0x2bu8, 0x81, 0x04, 0x00, 0x23] {
        Some(openpgp::CurveView::NistP521)
    } else {
        None
    }
}

/// The content of an encoded object identifier: the tag 0x06, one byte that states
/// the length, and the content.
pub open spec fn oid_content(der: Seq<u8>) -> Option<Seq<u8>> {
    if der.len() >= 2 && der[0] == 0x06 && der.len() - 2 >= der[1] {
        Some(der.subrange(2, 2 + der[1]))
    } else {
        None
    }
}

/// The curve that the parameters of a key name.
pub open spec fn named_curve(der: Seq<u8>) -> Result<openpgp::CurveView, Seq<char>> {
    match oid_content(der) {
        None => Err("CKA_EC_PARAMS is not a DER OID"@),
        Some(oid) => match curve_of_oid(oid) {
            Some(curve) => Ok(curve),
            None => Err("unsupported EC OID: "@ + hexcode::hex_notation(oid)),
        },
    }
}

/// The curve that `der`, the parameters of a key, name.
pub fn oid_to_curve(der: &[u8]) -> (r: Result<Curve, Error>)
    ensures
        match named_curve(der@) {
            Ok(curve) => r matches Ok(c) && c@ == curve,
            Err(message) => error::fails_with(r, error::ErrorView::UnsupportedKeyType(message)),
        },
{
    if der.len() < 2 || der[0] != 0x06 || der.len() - 2 < der[1] as usize {
        return Err(Error::UnsupportedKeyType("CKA_EC_PARAMS is not a DER OID".to_owned()));
    }
    let oid = vstd::slice::slice_subrange(der, 2, 2 + der[1] as usize);
    if bytes::same_bytes(oid, &[0x2a, 0x86, 0x48, 0xce, 0x3d, 0x03, 0x01, 0x07]) {
        assert(oid@ =~= seq![0x2au8, 0x86, 0x48, 0xce, 0x3d, 0x03, 0x01, 0x07]);
        Ok(Curve::NistP256)
    } else if bytes::same_bytes(oid, &[0x2b, 0x81, 0x04, 0x00, 0x22]) {
        assert(oid@ =~= seq![0x2bu8, 0x81, 0x04, 0x00, 0x22]);
        Ok(Curve::NistP384)
    } else if bytes::same_bytes(oid, &[0x2b, 0x81, 0x04, 0x00, 0x23]) {
        assert(oid@ =~= seq![0x2bu8, 0x81, 0x04, 0x00, 0x23]);
        Ok(Curve::NistP521)
    } else {
        Err(
            Error::UnsupportedKeyType(
                text::join2("unsupported EC OID: ", hexcode::encode(oid).as_str()),
            ),
        )
    }
}

// ---------------------------------------------------------------------------
// DigestInfo
// ---------------------------------------------------------------------------

/// Everything in a `DigestInfo` that stands before the digest, for the hash
/// algorithms that RSA signatures are made with (RFC 8017, section 9.2).
pub open spec fn digest_info_header(hash: HashAlgorithm) -> Option<Seq<u8>> {
    match hash {
        HashAlgorithm::SHA256 => Some(
            seq![
                0x30u8, 0x31, 0x30, 0x0d, 0x06, 0x09, 0x60, 0x86, 0x48, 0x01, 0x65, 0x03, 0x04,
                0x02, 0x01, 0x05, 0x00, 0x04, 0x20,
            ],
        ),
        HashAlgorithm::SHA384 => Some(
            seq![
                0x30u8, 0x41, 0x30, 0x0d, 0x06, 0x09, 0x60, 0x86, 0x48, 0x01, 0x65, 0x03, 0x04,
                0x02, 0x02, 0x05, 0x00, 0x04, 0x30,
            ],
        ),
        HashAlgorithm::SHA512 => Some(
            seq![
                0x30u8, 0x51, 0x30, 0x0d, 0x06, 0x09, 0x60, 0x86, 0x48, 0x01, 0x65, 0x03, 0x04,
                0x02, 0x03, 0x05, 0x00, 0x04, 0x40,
            ],
        ),
        _ => None,
    }
}

/// What is said of a hash algorithm that RSA signatures are not made with.
pub open spec fn unsupported_hash(hash: HashAlgorithm) -> error::ErrorView {
    error::ErrorView::Other(
        "Invalid argument: RSA signing with hash algorithm "@ + openpgp::hash_algorithm_text(hash)
            + " is not supported (use SHA-256, SHA-384, or SHA-512)"@,
    )
}

/// The part of a `DigestInfo` before the digest.
pub fn digest_info_prefix(hash_algo: HashAlgorithm) -> (r: Result<Vec<u8>, Error>)
    ensures
        match digest_info_header(hash_algo) {
            Some(header) => r matches Ok(v) && v@ == header,
            None => error::fails_with(r, unsupported_hash(hash_algo)),
        },
{
    match hash_algo {
        HashAlgorithm::SHA256 => Ok(
            vec![
                0x30, 0x31, 0x30, 0x0d, 0x06, 0x09, 0x60, 0x86, 0x48, 0x01, 0x65, 0x03, 0x04, 0x02,
                0x01, 0x05, 0x00, 0x04, 0x20,
            ],
        ),
        HashAlgorithm::SHA384 => Ok(
            vec![
                0x30, 0x41, 0x30, 0x0d, 0x06, 0x09, 0x60, 0x86, 0x48, 0x01, 0x65, 0x03, 0x04, 0x02,
                0x02, 0x05, 0x00, 0x04, 0x30,
            ],
        ),
        HashAlgorithm::SHA512 => Ok(
            vec![
                0x30, 0x51, 0x30, 0x0d, 0x06, 0x09, 0x60, 0x86, 0x48, 0x01, 0x65, 0x03, 0x04, 0x02,
                0x03, 0x05, 0x00, 0x04, 0x40,
            ],
        ),
        _ => Err(
            Error::Other(
                text::join3(
                    "Invalid argument: RSA signing with hash algorithm ",
                    hash_algo.text().as_str(),
                    " is not supported (use SHA-256, SHA-384, or SHA-512)",
                ),
            ),
        ),
    }
}

// ---------------------------------------------------------------------------
// Laws
// ---------------------------------------------------------------------------

/// The shortest big-endian notation of a number.
pub open spec fn be_bytes(n: nat) -> Seq<u8>
    decreases n,
{
    if n == 0 {
        Seq::empty()
    } else {
        be_bytes(n / 256).push((n % 256) as u8)
    }
}

proof fn be_bytes_value(n: nat)
    ensures
        bytes::be_value(be_bytes(n)) == n,
    decreases n,
{
    if n > 0 {
        be_bytes_value(n / 256);
        assert(be_bytes(n).drop_last() =~= be_bytes(n / 256));
    }
}

proof fn be_bytes_size(n: nat, k: nat)
    requires
        n < vstd::arithmetic::power2::pow2(8 * k),
    ensures
        be_bytes(n).len() <= k,
        n > 0 ==> be_bytes(n).len() > 0,
    decreases k,
{
    vstd::arithmetic::power2::lemma2_to64();
    if n > 0 {
        assert(k > 0);
        vstd::arithmetic::power2::lemma_pow2_adds((8 * (k - 1)) as nat, 8);
        assert((8 * (k - 1)) as nat + 8 == 8 * k);
        let p = vstd::arithmetic::power2::pow2((8 * (k - 1)) as nat);
        assert(n < p * 256);
        be_bytes_size(n / 256, (k - 1) as nat);
    }
}

/// The length `n` as DER states it.
pub open spec fn encoded_length(n: nat) -> Seq<u8> {
    if n < 0x80 {
        seq![n as u8]
    } else {
        seq![(0x80 + be_bytes(n).len()) as u8] + be_bytes(n)
    }
}

/// `content` as an encoded octet string.
pub open spec fn encoded_octet_string(content: Seq<u8>) -> Seq<u8> {
    seq![0x04u8] + encoded_length(content.len()) + content
}

/// Reading a length gives back what was written, in the short and in the long form,
/// whatever follows it.
pub proof fn length_round_trip(n: nat, rest: Seq<u8>)
    requires
        n <= usize::MAX,
    ensures
        der_length(encoded_length(n) + rest) == Ok::<(nat, nat), Seq<char>>(
            (n, encoded_length(n).len()),
        ),
{
    let b = encoded_length(n) + rest;
    if n >= 0x80 {
        let k = be_bytes(n).len();
        vstd::arithmetic::power2::lemma2_to64();
        be_bytes_size(n, (usize::BITS / 8) as nat);
        be_bytes_value(n);
        assert(b[0] == 0x80 + k);
        assert(b.subrange(1, (1 + k) as int) =~= be_bytes(n));
    }
}

/// Unwrapping an encoded octet string gives back its content, whatever follows it.
pub proof fn octet_string_round_trip(content: Seq<u8>, rest: Seq<u8>)
    requires
        content.len() <= usize::MAX,
    ensures
        octet_string(encoded_octet_string(content) + rest) == Ok::<Seq<u8>, Seq<char>>(content),
{
    let der = encoded_octet_string(content) + rest;
    let len = encoded_length(content.len());
    assert(der.skip(1) =~= len + (content + rest));
    length_round_trip(content.len(), content + rest);
    assert(der.subrange((1 + len.len()) as int, (1 + len.len() + content.len()) as int)
        =~= content);
}

/// How many bytes the digests of a hash algorithm have, for those that RSA
/// signatures are made with.
pub open spec fn digest_size(hash: HashAlgorithm) -> nat {
    match hash {
        HashAlgorithm::SHA256 => 32,
        HashAlgorithm::SHA384 => 48,
        HashAlgorithm::SHA512 => 64,
        _ => 0,
    }
}

/// A header and a digest of the right size are together one DER sequence: the
/// header's second byte counts all that follows it, and its last byte is the size
/// of the digest.
pub proof fn digest_info_is_well_formed(hash: HashAlgorithm, digest: Seq<u8>)
    requires
        digest_info_header(hash) is Some,
        digest.len() == digest_size(hash),
    ensures
        ({
            let header = digest_info_header(hash)->0;
            let info = header + digest;
            &&& der_length(info.skip(1)) == Ok::<(nat, nat), Seq<char>>(
                ((info.len() - 2) as nat, 1),
            )
            &&& header.last() == digest.len()
            &&& octet_string(info.skip(header.len() - 2)) == Ok::<Seq<u8>, Seq<char>>(digest)
        }),
{
    let header = digest_info_header(hash)->0;
    let info = header + digest;
    assert(info.skip(1)[0] == header[1]);
    let tail = info.skip(header.len() - 2);
    assert(tail[0] == 0x04);
    assert(tail.skip(1)[0] == header.last());
    assert(tail.subrange(2, 2 + digest.len() as int) =~= digest);
}

/// A number in groups of seven bits, most significant first, each but the last with the
/// upper bit set: how an object identifier states one of its numbers.
pub open spec fn base128(n: nat) -> Seq<u8>
    decreases n,
{
    if n < 128 {
        seq![n as u8]
    } else {
        base128_head(n / 128).push((n % 128) as u8)
    }
}

/// The groups of seven bits that stand before the last one.
pub open spec fn base128_head(n: nat) -> Seq<u8>
    decreases n,
{
    if n < 128 {
        seq![(128 + n) as u8]
    } else {
        base128_head(n / 128).push((128 + n % 128) as u8)
    }
}

/// The numbers behind the first two of an object identifier.
pub open spec fn encoded_arcs(arcs: Seq<nat>) -> Seq<u8>
    decreases arcs.len(),
{
    if arcs.len() == 0 {
        Seq::empty()
    } else {
        encoded_arcs(arcs.drop_last()) + base128(arcs.last())
    }
}

/// The content of an encoded object identifier; its first two numbers share a byte.
pub open spec fn encoded_oid(arcs: Seq<nat>) -> Seq<u8> {
    seq![(40 * arcs[0] + arcs[1]) as u8] + encoded_arcs(arcs.skip(2))
}

/// A value in DER: its tag, its length, and its content.
pub open spec fn encoded_value(tag: u8, content: Seq<u8>) -> Seq<u8> {
    seq![tag] + encoded_length(content.len()) + content
}

/// 1.2.840.10045.3.1.7 is the curve P-256.
proof fn p256_oid()
    ensures
        encoded_oid(seq![1nat, 2, 840, 10045, 3, 1, 7]) == seq![
            0x2au8, 0x86, 0x48, 0xce, 0x3d, 0x03, 0x01, 0x07,
        ],
{
    let arcs = seq![1nat, 2, 840, 10045, 3, 1, 7];
    reveal_with_fuel(encoded_arcs, 6);
    reveal_with_fuel(base128_head, 3);
    assert(arcs.skip(2) =~= seq![840nat, 10045, 3, 1, 7]);
    assert(seq![840nat, 10045, 3, 1, 7].drop_last() =~= seq![840nat, 10045, 3, 1]);
    assert(seq![840nat, 10045, 3, 1].drop_last() =~= seq![840nat, 10045, 3]);
    assert(seq![840nat, 10045, 3].drop_last() =~= seq![840nat, 10045]);
    assert(seq![840nat, 10045].drop_last() =~= seq![840nat]);
    assert(seq![840nat].drop_last() =~= Seq::<nat>::empty());
    assert(base128(840) =~= seq![0x86u8, 0x48]);
    assert(base128(10045) =~= seq![0xceu8, 0x3d]);
    assert(encoded_oid(arcs) =~= seq![0x2au8, 0x86, 0x48, 0xce, 0x3d, 0x03, 0x01, 0x07]);
}

/// 1.3.132.0.34 and 1.3.132.0.35 are the curves P-384 and P-521.
proof fn larger_curve_oid(last: nat)
    requires
        last < 128,
    ensures
        encoded_oid(seq![1nat, 3, 132, 0, last]) == seq![0x2bu8, 0x81, 0x04, 0x00, last as u8],
{
    let arcs = seq![1nat, 3, 132, 0, last];
    reveal_with_fuel(encoded_arcs, 4);
    reveal_with_fuel(base128_head, 3);
    assert(arcs.skip(2) =~= seq![132nat, 0, last]);
    assert(seq![132nat, 0, last].drop_last() =~= seq![132nat, 0]);
    assert(seq![132nat, 0].drop_last() =~= seq![132nat]);
    assert(seq![132nat].drop_last() =~= Seq::<nat>::empty());
    assert(base128(132) =~= seq![0x81u8, 0x04]);
    assert(encoded_oid(arcs) =~= seq![0x2bu8, 0x81, 0x04, 0x00, last as u8]);
}

/// 2.16.840.1.101.3.4.2 is the arc of the SHA-2 hash algorithms.
proof fn sha2_oid_bytes(last: nat)
    requires
        last < 128,
    ensures
        encoded_oid(seq![2nat, 16, 840, 1, 101, 3, 4, 2, last]) == seq![
            0x60u8, 0x86, 0x48, 0x01, 0x65, 0x03, 0x04, 0x02, last as u8,
        ],
{
    let arcs = seq![2nat, 16, 840, 1, 101, 3, 4, 2, last];
    reveal_with_fuel(encoded_arcs, 8);
    reveal_with_fuel(base128_head, 3);
    assert(arcs.skip(2) =~= seq![840nat, 1, 101, 3, 4, 2, last]);
    assert(seq![840nat, 1, 101, 3, 4, 2, last].drop_last() =~= seq![840nat, 1, 101, 3, 4, 2]);
    assert(seq![840nat, 1, 101, 3, 4, 2].drop_last() =~= seq![840nat, 1, 101, 3, 4]);
    assert(seq![840nat, 1, 101, 3, 4].drop_last() =~= seq![840nat, 1, 101, 3]);
    assert(seq![840nat, 1, 101, 3].drop_last() =~= seq![840nat, 1, 101]);
    assert(seq![840nat, 1, 101].drop_last() =~= seq![840nat, 1]);
    assert(seq![840nat, 1].drop_last() =~= seq![840nat]);
    assert(seq![840nat].drop_last() =~= Seq::<nat>::empty());
    assert(base128(840) =~= seq![0x86u8, 0x48]);
    assert(encoded_oid(arcs) =~= seq![
        0x60u8, 0x86, 0x48, 0x01, 0x65, 0x03, 0x04, 0x02, last as u8,
    ]);
}

/// The parameters of a key name a curve exactly if they are the object identifier of that
/// curve: 1.2.840.10045.3.1.7 for P-256, 1.3.132.0.34 for P-384 and 1.3.132.0.35 for
/// P-521.  Bytes behind it make no difference.
pub proof fn curves_are_named_by_their_identifiers(rest: Seq<u8>, der: Seq<u8>)
    ensures
        named_curve(encoded_value(0x06, encoded_oid(seq![1nat, 2, 840, 10045, 3, 1, 7])) + rest)
            == Ok::<openpgp::CurveView, Seq<char>>(openpgp::CurveView::NistP256),
        named_curve(encoded_value(0x06, encoded_oid(seq![1nat, 3, 132, 0, 34])) + rest) == Ok::<
            openpgp::CurveView,
            Seq<char>,
        >(openpgp::CurveView::NistP384),
        named_curve(encoded_value(0x06, encoded_oid(seq![1nat, 3, 132, 0, 35])) + rest) == Ok::<
            openpgp::CurveView,
            Seq<char>,
        >(openpgp::CurveView::NistP521),
        named_curve(der) is Ok ==> ({
            ||| encoded_value(0x06, encoded_oid(seq![1nat, 2, 840, 10045, 3, 1, 7])).is_prefix_of(
                der,
            )
            ||| encoded_value(0x06, encoded_oid(seq![1nat, 3, 132, 0, 34])).is_prefix_of(der)
            ||| encoded_value(0x06, encoded_oid(seq![1nat, 3, 132, 0, 35])).is_prefix_of(der)
        }),
{
    p256_oid();
    larger_curve_oid(34);
    larger_curve_oid(35);
    let a = encoded_oid(seq![1nat, 2, 840, 10045, 3, 1, 7]);
    let b = encoded_oid(seq![1nat, 3, 132, 0, 34]);
    let c = encoded_oid(seq![1nat, 3, 132, 0, 35]);
    assert(b[4] == 34 && c[4] == 35);
    let x = encoded_value(0x06, a) + rest;
    let y = encoded_value(0x06, b) + rest;
    let z = encoded_value(0x06, c) + rest;
    assert(x[1] == 8 && x.subrange(2, 10) =~= a);
    assert(y[1] == 5 && y.subrange(2, 7) =~= b);
    assert(z[1] == 5 && z.subrange(2, 7) =~= c);
    if named_curve(der) is Ok {
        let oid = der.subrange(2, 2 + der[1]);
        let whole = encoded_value(0x06, oid);
        assert(oid.len() == der[1]);
        assert(whole =~= der.subrange(0, whole.len() as int));
    }
}

/// Every way to state a length in DER is read: the short form, and the long form in any
/// number of bytes that a machine word has, leading zeros or not.
pub proof fn long_lengths_are_read(field: Seq<u8>, rest: Seq<u8>)
    requires
        0 < field.len(),
        8 * field.len() <= usize::BITS,
    ensures
        der_length(seq![(0x80 + field.len()) as u8] + field + rest) == Ok::<(nat, nat), Seq<char>>(
            (bytes::be_value(field), field.len() + 1),
        ),
{
    let b = seq![(0x80 + field.len()) as u8] + field + rest;
    assert(b[0] == 0x80 + field.len());
    assert(b.subrange(1, (1 + field.len()) as int) =~= field);
}

/// An octet string is read only from its tag, a length, and at least as many bytes as that
/// states.
pub proof fn octet_strings_are_tagged(der: Seq<u8>)
    requires
        octet_string(der) is Ok,
    ensures
        der.len() > 0 && der[0] == 0x04,
        der_length(der.skip(1)) matches Ok((len, taken)) && octet_string(der)->Ok_0.len() == len
            && forall|i: int|
            0 <= i < len ==> #[trigger] octet_string(der)->Ok_0[i] == der[1 + taken + i],
{
}

/// The `DigestInfo` of RFC 8017 for a digest under the SHA-2 algorithm with the given last
/// number: a sequence of the algorithm, with its object identifier and no parameters, and
/// the digest as an octet string.
pub open spec fn digest_info(last: nat, digest: Seq<u8>) -> Seq<u8> {
    let oid = encoded_oid(seq![2nat, 16, 840, 1, 101, 3, 4, 2, last]);
    let algorithm = encoded_value(0x30, encoded_value(0x06, oid) + encoded_value(0x05, Seq::empty()));
    encoded_value(0x30, algorithm + encoded_value(0x04, digest))
}

/// The bytes of a `DigestInfo` whose digest is short.
pub proof fn digest_info_bytes(last: nat, digest: Seq<u8>)
    requires
        last < 128,
        digest.len() <= 64,
    ensures
        digest_info(last, digest) == seq![
            0x30u8,
            (17 + digest.len()) as u8,
            0x30,
            0x0d,
            0x06,
            0x09,
            0x60,
            0x86,
            0x48,
            0x01,
            0x65,
            0x03,
            0x04,
            0x02,
            last as u8,
            0x05,
            0x00,
            0x04,
            digest.len() as u8,
        ] + digest,
{
    sha2_oid_bytes(last);
    let oid = encoded_oid(seq![2nat, 16, 840, 1, 101, 3, 4, 2, last]);
    let parameters = encoded_value(0x05, Seq::empty());
    assert(parameters =~= seq![0x05u8, 0x00]);
    let inner = encoded_value(0x06, oid) + parameters;
    assert(encoded_value(0x06, oid) =~= seq![0x06u8, 0x09] + oid);
    assert(inner.len() == 13);
    let algorithm = encoded_value(0x30, inner);
    assert(algorithm =~= seq![0x30u8, 0x0d] + inner);
    let content = algorithm + encoded_value(0x04, digest);
    assert(encoded_value(0x04, digest) =~= seq![0x04u8, digest.len() as u8] + digest);
    assert(content.len() == 17 + digest.len());
    assert(digest_info(last, digest) =~= seq![0x30u8, (17 + digest.len()) as u8] + content);
    assert(digest_info(last, digest) =~= seq![
        0x30u8,
        (17 + digest.len()) as u8,
        0x30,
        0x0d,
        0x06,
        0x09,
        0x60,
        0x86,
        0x48,
        0x01,
        0x65,
        0x03,
        0x04,
        0x02,
        last as u8,
        0x05,
        0x00,
        0x04,
        digest.len() as u8,
    ] + digest);
}

/// The curves are told by their object identifiers, and by nothing else.
pub proof fn identifiers_name_the_curves(oid: Seq<u8>)
    ensures
        curve_of_oid(oid) == Some(openpgp::CurveView::NistP256) <==> oid == encoded_oid(
            seq![1nat, 2, 840, 10045, 3, 1, 7],
        ),
        curve_of_oid(oid) == Some(openpgp::CurveView::NistP384) <==> oid == encoded_oid(
            seq![1nat, 3, 132, 0, 34],
        ),
        curve_of_oid(oid) == Some(openpgp::CurveView::NistP521) <==> oid == encoded_oid(
            seq![1nat, 3, 132, 0, 35],
        ),
        curve_of_oid(oid) matches Some(c) ==> c == openpgp::CurveView::NistP256 || c
            == openpgp::CurveView::NistP384 || c == openpgp::CurveView::NistP521,
{
    p256_oid();
    larger_curve_oid(34);
    larger_curve_oid(35);
    let b = seq![0x2bu8, 0x81, 0x04, 0x00, 0x22];
    let c = seq![0x2bu8, 0x81, 0x04, 0x00, 0x23];
    assert(b.len() == 5 && b[4] == 0x22 && c[4] == 0x23);
    assert(encoded_oid(seq![1nat, 3, 132, 0, 34]) == b);
    assert(encoded_oid(seq![1nat, 3, 132, 0, 35]) == c);
}

} // verus!
