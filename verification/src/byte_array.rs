//! Fixed-length byte buffers and the (de)serialization contracts that tie a
//! value type to its on-wire byte form.
//!
//! Register and command payloads travel over the bus as byte strings of a
//! length fixed per payload type. [`ToByteArray`] turns a value into its wire
//! bytes, [`FromByteArray`] recovers a value from wire bytes, and the closed
//! family of [`ByteArray`] buffer types provides zero-initialised scratch
//! space of the right size. Built-in implementations cover the unsigned
//! integer widths in big-endian byte order.

use vstd::prelude::*;

verus! {

broadcast use vstd::array::group_array_axioms;

/// 256 raised to the power `n`: how many distinct values a byte string of
/// length `n` can denote.
pub open spec fn pow256(n: nat) -> nat
    decreases n,
{
    if n == 0 {
        1
    } else {
        256 * pow256((n - 1) as nat)
    }
}

/// The big-endian byte string of length `n` denoting `v`.
pub open spec fn be_bytes_of(v: nat, n: nat) -> Seq<u8>
    decreases n,
{
    if n == 0 {
        Seq::empty()
    } else {
        be_bytes_of(v / 256, (n - 1) as nat).push((v % 256) as u8)
    }
}

/// The value denoted by a big-endian byte string.
pub open spec fn nat_of_be_bytes(s: Seq<u8>) -> nat
    decreases s.len(),
{
    if s.len() == 0 {
        0
    } else {
        nat_of_be_bytes(s.drop_last()) * 256 + s.last() as nat
    }
}

/// The powers of 256 at the five identifier widths, by unfolding.
pub proof fn lemma_pow256_values()
    ensures
        pow256(1) == 0x100,
        pow256(2) == 0x1_0000,
        pow256(4) == 0x1_0000_0000,
        pow256(8) == 0x1_0000_0000_0000_0000,
        pow256(16) == 0x1_0000_0000_0000_0000_0000_0000_0000_0000,
{
    assert(pow256(0) == 1);
    assert(pow256(1) == 0x100);
    assert(pow256(2) == 0x1_0000);
    assert(pow256(3) == 0x100_0000);
    assert(pow256(4) == 0x1_0000_0000);
    assert(pow256(5) == 0x100_0000_0000);
    assert(pow256(6) == 0x1_0000_0000_0000);
    assert(pow256(7) == 0x100_0000_0000_0000);
    assert(pow256(8) == 0x1_0000_0000_0000_0000);
    assert(pow256(9) == 0x100_0000_0000_0000_0000);
    assert(pow256(10) == 0x1_0000_0000_0000_0000_0000);
    assert(pow256(11) == 0x100_0000_0000_0000_0000_0000);
    assert(pow256(12) == 0x1_0000_0000_0000_0000_0000_0000);
    assert(pow256(13) == 0x100_0000_0000_0000_0000_0000_0000);
    assert(pow256(14) == 0x1_0000_0000_0000_0000_0000_0000_0000);
    assert(pow256(15) == 0x100_0000_0000_0000_0000_0000_0000_0000);
    assert(pow256(16) == 0x1_0000_0000_0000_0000_0000_0000_0000_0000);
}

pub proof fn lemma_pow256_increases(m: nat, n: nat)
    requires
        m <= n,
    ensures
        pow256(m) <= pow256(n),
    decreases n,
{
    if m < n {
        lemma_pow256_increases(m, (n - 1) as nat);
        assert(pow256(n) == 256 * pow256((n - 1) as nat));
    }
}

/// A byte string of length `n` denotes a value below `pow256(n)`.
pub proof fn lemma_nat_of_be_bytes_bound(s: Seq<u8>)
    ensures
        nat_of_be_bytes(s) < pow256(s.len()),
    decreases s.len(),
{
    if s.len() > 0 {
        lemma_nat_of_be_bytes_bound(s.drop_last());
        let prefix = nat_of_be_bytes(s.drop_last());
        assert(prefix * 256 + 255 < 256 * pow256((s.len() - 1) as nat)) by (nonlinear_arith)
            requires
                prefix < pow256((s.len() - 1) as nat),
        ;
    }
}

/// Law: encoding a value below `pow256(n)` as `n` big-endian bytes and
/// decoding the bytes yields the value back.
pub proof fn lemma_be_round_trip(v: nat, n: nat)
    requires
        v < pow256(n),
    ensures
        be_bytes_of(v, n).len() == n,
        nat_of_be_bytes(be_bytes_of(v, n)) == v,
    decreases n,
{
    if n != 0 {
        assert(v / 256 < pow256((n - 1) as nat)) by (nonlinear_arith)
            requires
                v < 256 * pow256((n - 1) as nat),
        ;
        lemma_be_round_trip(v / 256, (n - 1) as nat);
        let s = be_bytes_of(v, n);
        assert(s.drop_last() =~= be_bytes_of(v / 256, (n - 1) as nat));
        assert((v / 256) * 256 + v % 256 == v) by (nonlinear_arith);
    }
}

/// Law: decoding a byte string and re-encoding the value at the same length
/// yields the byte string back.
pub proof fn lemma_be_bytes_round_trip(s: Seq<u8>)
    ensures
        be_bytes_of(nat_of_be_bytes(s), s.len()) =~= s,
    decreases s.len(),
{
    if s.len() > 0 {
        lemma_be_bytes_round_trip(s.drop_last());
        let v = nat_of_be_bytes(s);
        let prefix = nat_of_be_bytes(s.drop_last());
        assert(v == prefix * 256 + s.last());
        assert(v / 256 == prefix && v % 256 == s.last()) by (nonlinear_arith)
            requires
                v == prefix * 256 + s.last(),
                s.last() < 256,
        ;
    }
}

/// Encodes `v` as exactly `n` big-endian bytes.
pub fn be_encode(v: u128, n: usize) -> (r: Vec<u8>)
    requires
        (v as nat) < pow256(n as nat),
    ensures
        r@ == be_bytes_of(v as nat, n as nat),
        r@.len() == n,
    decreases n,
{
    proof {
        lemma_be_round_trip(v as nat, n as nat);
    }
    if n == 0 {
        Vec::new()
    } else {
        proof {
            assert(((v / 256) as nat) < pow256((n - 1) as nat)) by (nonlinear_arith)
                requires
                    (v as nat) < 256 * pow256((n - 1) as nat),
            ;
        }
        let mut r = be_encode(v / 256, n - 1);
        r.push((v % 256) as u8);
        r
    }
}

/// Decodes a big-endian byte string of at most 16 bytes.
pub fn be_decode(bytes: &[u8]) -> (r: u128)
    requires
        bytes@.len() <= 16,
    ensures
        r as nat == nat_of_be_bytes(bytes@),
{
    let n = bytes.len();
    let mut acc: u128 = 0;
    let mut i: usize = 0;
    proof {
        assert(bytes@.take(0) =~= Seq::empty());
    }
    while i < n
        invariant
            i <= n,
            n == bytes@.len() <= 16,
            acc as nat == nat_of_be_bytes(bytes@.take(i as int)),
        decreases n - i,
    {
        proof {
            lemma_nat_of_be_bytes_bound(bytes@.take(i as int));
            lemma_pow256_increases((i + 1) as nat, 16);
            lemma_pow256_values();
            assert((acc as nat) * 256 + 255 < 256 * pow256(i as nat)) by (nonlinear_arith)
                requires
                    (acc as nat) < pow256(i as nat),
            ;
            assert(bytes@.take(i + 1).drop_last() =~= bytes@.take(i as int));
        }
        acc = acc * 256 + (bytes[i] as u128);
        i = i + 1;
    }
    proof {
        assert(bytes@.take(n as int) =~= bytes@);
    }
    acc
}

/// Restricts [`ByteArray`] to the fixed-length byte arrays: implemented for
/// `[u8; LEN]` and for nothing else.
pub trait Sealed {}

impl<const LEN: usize> Sealed for [u8; LEN] {}

/// A fixed-length byte buffer offering zero-initialised construction and
/// read-only or mutable views for bus transfers. Implemented for `[u8; LEN]`
/// and sealed against further implementations.
pub trait ByteArray: Sealed + View<V = Seq<u8>> + Sized {
    /// The buffer length, fixed at the type level.
    spec fn spec_len() -> usize;

    /// Returns a zero-filled buffer.
    fn new() -> (r: Self)
        ensures
            r@ =~= Seq::new(Self::spec_len() as nat, |i: int| 0u8),
    ;

    /// Read-only view of the buffer.
    fn as_view(&self) -> (r: &[u8])
        ensures
            r@ == self@,
    ;

    /// Mutable view of the buffer, for bus reads that fill it in place.
    fn as_mutable_view(&mut self) -> (r: &mut [u8])
        ensures
            r@ == old(self)@,
            final(self)@ == final(r)@,
    ;
}

impl<const LEN: usize> ByteArray for [u8; LEN] {
    open spec fn spec_len() -> usize {
        LEN
    }

    fn new() -> (r: Self)
        ensures
            r@ =~= Seq::new(LEN as nat, |i: int| 0u8),
    {
        [0u8; LEN]
    }

    fn as_view(&self) -> (r: &[u8])
        ensures
            r@ == self@,
    {
        self.as_slice()
    }

    fn as_mutable_view(&mut self) -> (r: &mut [u8])
        ensures
            r@ == old(self)@,
            final(self)@ == final(r)@,
    {
        vstd::array::ref_mut_array_unsizing_coercion(self)
    }
}

/// The deserialization contract: a value type recoverable from a byte string
/// of a fixed length, or a type-specific error.
///
/// `spec_from_bytes` is the mathematical meaning of the wire format;
/// `from_bytes` is its executable counterpart and is proved to agree with it.
pub trait FromByteArray: Sized {
    /// The error raised when the bytes do not denote a value.
    type Error;

    /// The wire length of this payload type, in bytes.
    ///
    /// Implementations used from verified code give this a body; the
    /// default leaves it unspecified, so unverified implementations need
    /// not mention it.
    open spec fn spec_byte_count() -> usize {
        vstd::pervasive::arbitrary()
    }

    /// What a byte string of the wire length denotes: a value, or an error.
    ///
    /// Implementations used from verified code give this a body; the
    /// default leaves it unspecified, so unverified implementations need
    /// not mention it.
    open spec fn spec_from_bytes(bytes: Seq<u8>) -> Result<Self, Self::Error> {
        vstd::pervasive::arbitrary()
    }

    /// The wire length of this payload type, as a runtime value.
    fn byte_count() -> (n: usize)
        ensures
            n == Self::spec_byte_count(),
    ;

    /// Deserializes a buffer of the wire length.
    fn from_bytes(bytes: Vec<u8>) -> (r: Result<Self, Self::Error>)
        requires
            bytes@.len() == Self::spec_byte_count(),
        ensures
            r == Self::spec_from_bytes(bytes@),
    ;
}

/// The serialization contract: a value type convertible into a byte string of
/// a fixed length, or a type-specific error.
///
/// `spec_to_bytes` is the mathematical meaning of the conversion;
/// `to_bytes` is its executable counterpart and is proved to agree with it.
pub trait ToByteArray: Sized {
    /// The error raised when the value cannot be encoded.
    type Error;

    /// The wire length of this payload type, in bytes.
    ///
    /// Implementations used from verified code give this a body; the
    /// default leaves it unspecified, so unverified implementations need
    /// not mention it.
    open spec fn spec_byte_count() -> usize {
        vstd::pervasive::arbitrary()
    }

    /// The wire bytes this value encodes to, or an error.
    ///
    /// Implementations used from verified code give this a body; the
    /// default leaves it unspecified, so unverified implementations need
    /// not mention it.
    open spec fn spec_to_bytes(self) -> Result<Seq<u8>, Self::Error> {
        vstd::pervasive::arbitrary()
    }

    /// The wire length of this payload type, as a runtime value.
    fn byte_count() -> (n: usize)
        ensures
            n == Self::spec_byte_count(),
    ;

    /// Serializes the value into a buffer of the wire length.
    fn to_bytes(self) -> (r: Result<Vec<u8>, Self::Error>)
        ensures
            match r {
                Ok(v) => self.spec_to_bytes() == Ok::<Seq<u8>, Self::Error>(v@) && v@.len()
                    == Self::spec_byte_count(),
                Err(e) => self.spec_to_bytes() == Err::<Seq<u8>, Self::Error>(e),
            },
    ;
}

} // verus!

verus! {

impl FromByteArray for u8 {
    type Error = ();

    open spec fn spec_byte_count() -> usize {
        1
    }

    open spec fn spec_from_bytes(bytes: Seq<u8>) -> Result<Self, Self::Error> {
        Ok(nat_of_be_bytes(bytes) as u8)
    }

    fn byte_count() -> usize {
        1
    }

    fn from_bytes(bytes: Vec<u8>) -> (r: Result<Self, Self::Error>) {
        proof {
            lemma_nat_of_be_bytes_bound(bytes@);
            lemma_pow256_values();
        }
        Ok(be_decode(bytes.as_slice()) as u8)
    }
}

impl ToByteArray for u8 {
    type Error = ();

    open spec fn spec_byte_count() -> usize {
        1
    }

    open spec fn spec_to_bytes(self) -> Result<Seq<u8>, Self::Error> {
        Ok(be_bytes_of(self as nat, 1))
    }

    fn byte_count() -> usize {
        1
    }

    fn to_bytes(self) -> (r: Result<Vec<u8>, Self::Error>) {
        proof {
            lemma_pow256_values();
        }
        Ok(be_encode(self as u128, 1))
    }
}

/// Law: for the 8-bit width, encoding a value and decoding the bytes
/// yields the value back, in big-endian order.
pub proof fn lemma_u8_byte_round_trip(v: u8)
    ensures
        ({
            let s = be_bytes_of(v as nat, 1);
            &&& <u8 as ToByteArray>::spec_to_bytes(v) == Ok::<Seq<u8>, ()>(s)
            &&& <u8 as FromByteArray>::spec_from_bytes(s) == Ok::<u8, ()>(v)
        }),
{
    lemma_pow256_values();
    lemma_be_round_trip(v as nat, 1);
}

impl FromByteArray for u16 {
    type Error = ();

    open spec fn spec_byte_count() -> usize {
        2
    }

    open spec fn spec_from_bytes(bytes: Seq<u8>) -> Result<Self, Self::Error> {
        Ok(nat_of_be_bytes(bytes) as u16)
    }

    fn byte_count() -> usize {
        2
    }

    fn from_bytes(bytes: Vec<u8>) -> (r: Result<Self, Self::Error>) {
        proof {
            lemma_nat_of_be_bytes_bound(bytes@);
            lemma_pow256_values();
        }
        Ok(be_decode(bytes.as_slice()) as u16)
    }
}

impl ToByteArray for u16 {
    type Error = ();

    open spec fn spec_byte_count() -> usize {
        2
    }

    open spec fn spec_to_bytes(self) -> Result<Seq<u8>, Self::Error> {
        Ok(be_bytes_of(self as nat, 2))
    }

    fn byte_count() -> usize {
        2
    }

    fn to_bytes(self) -> (r: Result<Vec<u8>, Self::Error>) {
        proof {
            lemma_pow256_values();
        }
        Ok(be_encode(self as u128, 2))
    }
}

/// Law: for the 16-bit width, encoding a value and decoding the bytes
/// yields the value back, in big-endian order.
pub proof fn lemma_u16_byte_round_trip(v: u16)
    ensures
        ({
            let s = be_bytes_of(v as nat, 2);
            &&& <u16 as ToByteArray>::spec_to_bytes(v) == Ok::<Seq<u8>, ()>(s)
            &&& <u16 as FromByteArray>::spec_from_bytes(s) == Ok::<u16, ()>(v)
        }),
{
    lemma_pow256_values();
    lemma_be_round_trip(v as nat, 2);
}

impl FromByteArray for u32 {
    type Error = ();

    open spec fn spec_byte_count() -> usize {
        4
    }

    open spec fn spec_from_bytes(bytes: Seq<u8>) -> Result<Self, Self::Error> {
        Ok(nat_of_be_bytes(bytes) as u32)
    }

    fn byte_count() -> usize {
        4
    }

    fn from_bytes(bytes: Vec<u8>) -> (r: Result<Self, Self::Error>) {
        proof {
            lemma_nat_of_be_bytes_bound(bytes@);
            lemma_pow256_values();
        }
        Ok(be_decode(bytes.as_slice()) as u32)
    }
}

impl ToByteArray for u32 {
    type Error = ();

    open spec fn spec_byte_count() -> usize {
        4
    }

    open spec fn spec_to_bytes(self) -> Result<Seq<u8>, Self::Error> {
        Ok(be_bytes_of(self as nat, 4))
    }

    fn byte_count() -> usize {
        4
    }

    fn to_bytes(self) -> (r: Result<Vec<u8>, Self::Error>) {
        proof {
            lemma_pow256_values();
        }
        Ok(be_encode(self as u128, 4))
    }
}

/// Law: for the 32-bit width, encoding a value and decoding the bytes
/// yields the value back, in big-endian order.
pub proof fn lemma_u32_byte_round_trip(v: u32)
    ensures
        ({
            let s = be_bytes_of(v as nat, 4);
            &&& <u32 as ToByteArray>::spec_to_bytes(v) == Ok::<Seq<u8>, ()>(s)
            &&& <u32 as FromByteArray>::spec_from_bytes(s) == Ok::<u32, ()>(v)
        }),
{
    lemma_pow256_values();
    lemma_be_round_trip(v as nat, 4);
}

impl FromByteArray for u64 {
    type Error = ();

    open spec fn spec_byte_count() -> usize {
        8
    }

    open spec fn spec_from_bytes(bytes: Seq<u8>) -> Result<Self, Self::Error> {
        Ok(nat_of_be_bytes(bytes) as u64)
    }

    fn byte_count() -> usize {
        8
    }

    fn from_bytes(bytes: Vec<u8>) -> (r: Result<Self, Self::Error>) {
        proof {
            lemma_nat_of_be_bytes_bound(bytes@);
            lemma_pow256_values();
        }
        Ok(be_decode(bytes.as_slice()) as u64)
    }
}

impl ToByteArray for u64 {
    type Error = ();

    open spec fn spec_byte_count() -> usize {
        8
    }

    open spec fn spec_to_bytes(self) -> Result<Seq<u8>, Self::Error> {
        Ok(be_bytes_of(self as nat, 8))
    }

    fn byte_count() -> usize {
        8
    }

    fn to_bytes(self) -> (r: Result<Vec<u8>, Self::Error>) {
        proof {
            lemma_pow256_values();
        }
        Ok(be_encode(self as u128, 8))
    }
}

/// Law: for the 64-bit width, encoding a value and decoding the bytes
/// yields the value back, in big-endian order.
pub proof fn lemma_u64_byte_round_trip(v: u64)
    ensures
        ({
            let s = be_bytes_of(v as nat, 8);
            &&& <u64 as ToByteArray>::spec_to_bytes(v) == Ok::<Seq<u8>, ()>(s)
            &&& <u64 as FromByteArray>::spec_from_bytes(s) == Ok::<u64, ()>(v)
        }),
{
    lemma_pow256_values();
    lemma_be_round_trip(v as nat, 8);
}

impl FromByteArray for u128 {
    type Error = ();

    open spec fn spec_byte_count() -> usize {
        16
    }

    open spec fn spec_from_bytes(bytes: Seq<u8>) -> Result<Self, Self::Error> {
        Ok(nat_of_be_bytes(bytes) as u128)
    }

    fn byte_count() -> usize {
        16
    }

    fn from_bytes(bytes: Vec<u8>) -> (r: Result<Self, Self::Error>) {
        proof {
            lemma_nat_of_be_bytes_bound(bytes@);
            lemma_pow256_values();
        }
        Ok(be_decode(bytes.as_slice()) as u128)
    }
}

impl ToByteArray for u128 {
    type Error = ();

    open spec fn spec_byte_count() -> usize {
        16
    }

    open spec fn spec_to_bytes(self) -> Result<Seq<u8>, Self::Error> {
        Ok(be_bytes_of(self as nat, 16))
    }

    fn byte_count() -> usize {
        16
    }

    fn to_bytes(self) -> (r: Result<Vec<u8>, Self::Error>) {
        proof {
            lemma_pow256_values();
        }
        Ok(be_encode(self as u128, 16))
    }
}

/// Law: for the 128-bit width, encoding a value and decoding the bytes
/// yields the value back, in big-endian order.
pub proof fn lemma_u128_byte_round_trip(v: u128)
    ensures
        ({
            let s = be_bytes_of(v as nat, 16);
            &&& <u128 as ToByteArray>::spec_to_bytes(v) == Ok::<Seq<u8>, ()>(s)
            &&& <u128 as FromByteArray>::spec_from_bytes(s) == Ok::<u128, ()>(v)
        }),
{
    lemma_pow256_values();
    lemma_be_round_trip(v as nat, 16);
}

} // verus!
