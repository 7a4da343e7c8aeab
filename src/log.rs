//! The byte image of a plain fixed-size value.
//!
//! A value travels as exactly its in-memory bytes, in the byte order of the
//! machine that sends it: nothing is normalised.
use vstd::bytes::*;
use vstd::endian::{endianness, Endian};
use vstd::prelude::*;

verus! {

/// Orders a little-endian byte image as the machine that runs this code
/// lays it out in memory.
pub open spec fn in_host_order(le: Seq<u8>) -> Seq<u8> {
    match endianness() {
        Endian::Little => le,
        Endian::Big => le.reverse(),
    }
}

/// The memory image of a `u16`.
pub open spec fn u16_image(x: u16) -> Seq<u8> {
    in_host_order(spec_u16_to_le_bytes(x))
}

/// The memory image of a `u32`.
pub open spec fn u32_image(x: u32) -> Seq<u8> {
    in_host_order(spec_u32_to_le_bytes(x))
}

/// The memory image of a `u64`.
pub open spec fn u64_image(x: u64) -> Seq<u8> {
    in_host_order(spec_u64_to_le_bytes(x))
}

proof fn lemma_host_order_injective(a: Seq<u8>, b: Seq<u8>)
    requires
        in_host_order(a) == in_host_order(b),
    ensures
        a == b,
        in_host_order(a).len() == a.len(),
{
    match endianness() {
        Endian::Little => {},
        Endian::Big => {
            assert(a.reverse().reverse() =~= a);
            assert(b.reverse().reverse() =~= b);
        },
    }
}

/// Relies on `u16::to_ne_bytes`: the memory image of `x` in native byte order.
#[verifier::external_body]
fn u16_to_ne(x: u16) -> (r: [u8; 2])
    ensures
        r@ == u16_image(x),
{
    x.to_ne_bytes()
}

/// Relies on `u16::from_ne_bytes`: the value whose memory image, in native
/// byte order, is `b`.
#[verifier::external_body]
fn u16_from_ne(b: [u8; 2]) -> (r: u16)
    ensures
        u16_image(r) == b@,
{
    u16::from_ne_bytes(b)
}

/// Relies on `u32::to_ne_bytes`: the memory image of `x` in native byte order.
#[verifier::external_body]
fn u32_to_ne(x: u32) -> (r: [u8; 4])
    ensures
        r@ == u32_image(x),
{
    x.to_ne_bytes()
}

/// Relies on `u32::from_ne_bytes`: the value whose memory image, in native
/// byte order, is `b`.
#[verifier::external_body]
fn u32_from_ne(b: [u8; 4]) -> (r: u32)
    ensures
        u32_image(r) == b@,
{
    u32::from_ne_bytes(b)
}

/// Relies on `u64::to_ne_bytes`: the memory image of `x` in native byte order.
#[verifier::external_body]
fn u64_to_ne(x: u64) -> (r: [u8; 8])
    ensures
        r@ == u64_image(x),
{
    x.to_ne_bytes()
}

/// Relies on `u64::from_ne_bytes`: the value whose memory image, in native
/// byte order, is `b`.
#[verifier::external_body]
fn u64_from_ne(b: [u8; 8]) -> (r: u64)
    ensures
        u64_image(r) == b@,
{
    u64::from_ne_bytes(b)
}

/// A plain value of fixed size, sent and received as its memory image.
///
/// Every byte sequence of the right length is the image of exactly one value,
/// so the image can be read back into the value it came from.
pub trait Log: Sized {
    /// The number of bytes in the image of every value of the type.
    spec fn width() -> nat;

    /// The bytes of the value, as they lie in memory.
    spec fn image(&self) -> Seq<u8>;

    /// Images have the type's width, and two values with one image are equal.
    proof fn lemma_image(a: Self, b: Self)
        ensures
            a.image().len() == Self::width(),
            a.image() == b.image() ==> a == b,
    ;

    /// The width in bytes.
    fn byte_width() -> (r: usize)
        ensures
            r == Self::width(),
    ;

    /// A copy of the value's image.
    fn to_bytes(&self) -> (r: Vec<u8>)
        ensures
            r@ == self.image(),
    ;

    /// The value whose image is `b`.
    fn from_bytes(b: &[u8]) -> (r: Self)
        requires
            b@.len() == Self::width(),
        ensures
            r.image() == b@,
    ;
}

/// The bytes of `a`, in a vector.
fn array_to_vec(a: &[u8]) -> (r: Vec<u8>)
    ensures
        r@ == a@,
{
    let mut r: Vec<u8> = Vec::with_capacity(a.len());
    let mut i: usize = 0;
    while i < a.len()
        invariant
            i <= a@.len(),
            r@ == a@.take(i as int),
        decreases a@.len() - i,
    {
        r.push(a[i]);
        i = i + 1;
        assert(r@ =~= a@.take(i as int));
    }
    assert(r@ =~= a@);
    r
}

impl Log for u8 {
    open spec fn width() -> nat {
        1
    }

    open spec fn image(&self) -> Seq<u8> {
        seq![*self]
    }

    proof fn lemma_image(a: Self, b: Self) {
        if a.image() == b.image() {
            assert(a.image()[0] == b.image()[0]);
        }
    }

    fn byte_width() -> (r: usize) {
        1
    }

    fn to_bytes(&self) -> (r: Vec<u8>) {
        let r = vec![*self];
        assert(r@ =~= self.image());
        r
    }

    fn from_bytes(b: &[u8]) -> (r: Self) {
        let r = b[0];
        assert(r.image() =~= b@);
        r
    }
}

impl Log for u16 {
    open spec fn width() -> nat {
        2
    }

    open spec fn image(&self) -> Seq<u8> {
        u16_image(*self)
    }

    proof fn lemma_image(a: Self, b: Self) {
        lemma_auto_spec_u16_to_from_le_bytes();
        if a.image() == b.image() {
            lemma_host_order_injective(spec_u16_to_le_bytes(a), spec_u16_to_le_bytes(b));
        }
        lemma_host_order_injective(spec_u16_to_le_bytes(a), spec_u16_to_le_bytes(a));
    }

    fn byte_width() -> (r: usize) {
        2
    }

    fn to_bytes(&self) -> (r: Vec<u8>) {
        array_to_vec(&u16_to_ne(*self))
    }

    fn from_bytes(b: &[u8]) -> (r: Self) {
        let a: [u8; 2] = [b[0], b[1]];
        assert(a@ =~= b@);
        u16_from_ne(a)
    }
}

impl Log for u32 {
    open spec fn width() -> nat {
        4
    }

    open spec fn image(&self) -> Seq<u8> {
        u32_image(*self)
    }

    proof fn lemma_image(a: Self, b: Self) {
        lemma_auto_spec_u32_to_from_le_bytes();
        if a.image() == b.image() {
            lemma_host_order_injective(spec_u32_to_le_bytes(a), spec_u32_to_le_bytes(b));
        }
        lemma_host_order_injective(spec_u32_to_le_bytes(a), spec_u32_to_le_bytes(a));
    }

    fn byte_width() -> (r: usize) {
        4
    }

    fn to_bytes(&self) -> (r: Vec<u8>) {
        array_to_vec(&u32_to_ne(*self))
    }

    fn from_bytes(b: &[u8]) -> (r: Self) {
        let a: [u8; 4] = [b[0], b[1], b[2], b[3]];
        assert(a@ =~= b@);
        u32_from_ne(a)
    }
}

impl Log for u64 {
    open spec fn width() -> nat {
        8
    }

    open spec fn image(&self) -> Seq<u8> {
        u64_image(*self)
    }

    proof fn lemma_image(a: Self, b: Self) {
        lemma_auto_spec_u64_to_from_le_bytes();
        if a.image() == b.image() {
            lemma_host_order_injective(spec_u64_to_le_bytes(a), spec_u64_to_le_bytes(b));
        }
        lemma_host_order_injective(spec_u64_to_le_bytes(a), spec_u64_to_le_bytes(a));
    }

    fn byte_width() -> (r: usize) {
        8
    }

    fn to_bytes(&self) -> (r: Vec<u8>) {
        array_to_vec(&u64_to_ne(*self))
    }

    fn from_bytes(b: &[u8]) -> (r: Self) {
        let a: [u8; 8] = [b[0], b[1], b[2], b[3], b[4], b[5], b[6], b[7]];
        assert(a@ =~= b@);
        u64_from_ne(a)
    }
}

/// Sent as the unsigned value with the same bits, which has the same image.
impl Log for i8 {
    open spec fn width() -> nat {
        <u8 as Log>::width()
    }

    open spec fn image(&self) -> Seq<u8> {
        (#[verifier::truncate] (*self as u8)).image()
    }

    proof fn lemma_image(a: Self, b: Self) {
        let (x, y) = (#[verifier::truncate] (a as u8), #[verifier::truncate] (b as u8));
        <u8 as Log>::lemma_image(x, y);
        assert(x == y ==> a == b) by (bit_vector)
            requires
                x == #[verifier::truncate] (a as u8),
                y == #[verifier::truncate] (b as u8),
        ;
    }

    fn byte_width() -> (r: usize) {
        <u8 as Log>::byte_width()
    }

    fn to_bytes(&self) -> (r: Vec<u8>) {
        (*self as u8).to_bytes()
    }

    fn from_bytes(b: &[u8]) -> (r: Self) {
        let u = <u8 as Log>::from_bytes(b);
        proof {
            let back = #[verifier::truncate] ((#[verifier::truncate] (u as i8)) as u8);
            assert(back == u) by (bit_vector)
                requires
                    back == #[verifier::truncate] ((#[verifier::truncate] (u as i8)) as u8),
            ;
        }
        #[verifier::truncate] (u as i8)
    }
}

/// Sent as the unsigned value with the same bits, which has the same image.
impl Log for i16 {
    open spec fn width() -> nat {
        <u16 as Log>::width()
    }

    open spec fn image(&self) -> Seq<u8> {
        (#[verifier::truncate] (*self as u16)).image()
    }

    proof fn lemma_image(a: Self, b: Self) {
        let (x, y) = (#[verifier::truncate] (a as u16), #[verifier::truncate] (b as u16));
        <u16 as Log>::lemma_image(x, y);
        assert(x == y ==> a == b) by (bit_vector)
            requires
                x == #[verifier::truncate] (a as u16),
                y == #[verifier::truncate] (b as u16),
        ;
    }

    fn byte_width() -> (r: usize) {
        <u16 as Log>::byte_width()
    }

    fn to_bytes(&self) -> (r: Vec<u8>) {
        (*self as u16).to_bytes()
    }

    fn from_bytes(b: &[u8]) -> (r: Self) {
        let u = <u16 as Log>::from_bytes(b);
        proof {
            let back = #[verifier::truncate] ((#[verifier::truncate] (u as i16)) as u16);
            assert(back == u) by (bit_vector)
                requires
                    back == #[verifier::truncate] ((#[verifier::truncate] (u as i16)) as u16),
            ;
        }
        #[verifier::truncate] (u as i16)
    }
}

/// Sent as the unsigned value with the same bits, which has the same image.
impl Log for i32 {
    open spec fn width() -> nat {
        <u32 as Log>::width()
    }

    open spec fn image(&self) -> Seq<u8> {
        (#[verifier::truncate] (*self as u32)).image()
    }

    proof fn lemma_image(a: Self, b: Self) {
        let (x, y) = (#[verifier::truncate] (a as u32), #[verifier::truncate] (b as u32));
        <u32 as Log>::lemma_image(x, y);
        assert(x == y ==> a == b) by (bit_vector)
            requires
                x == #[verifier::truncate] (a as u32),
                y == #[verifier::truncate] (b as u32),
        ;
    }

    fn byte_width() -> (r: usize) {
        <u32 as Log>::byte_width()
    }

    fn to_bytes(&self) -> (r: Vec<u8>) {
        (*self as u32).to_bytes()
    }

    fn from_bytes(b: &[u8]) -> (r: Self) {
        let u = <u32 as Log>::from_bytes(b);
        proof {
            let back = #[verifier::truncate] ((#[verifier::truncate] (u as i32)) as u32);
            assert(back == u) by (bit_vector)
                requires
                    back == #[verifier::truncate] ((#[verifier::truncate] (u as i32)) as u32),
            ;
        }
        #[verifier::truncate] (u as i32)
    }
}

/// Sent as the unsigned value with the same bits, which has the same image.
impl Log for i64 {
    open spec fn width() -> nat {
        <u64 as Log>::width()
    }

    open spec fn image(&self) -> Seq<u8> {
        (#[verifier::truncate] (*self as u64)).image()
    }

    proof fn lemma_image(a: Self, b: Self) {
        let (x, y) = (#[verifier::truncate] (a as u64), #[verifier::truncate] (b as u64));
        <u64 as Log>::lemma_image(x, y);
        assert(x == y ==> a == b) by (bit_vector)
            requires
                x == #[verifier::truncate] (a as u64),
                y == #[verifier::truncate] (b as u64),
        ;
    }

    fn byte_width() -> (r: usize) {
        <u64 as Log>::byte_width()
    }

    fn to_bytes(&self) -> (r: Vec<u8>) {
        (*self as u64).to_bytes()
    }

    fn from_bytes(b: &[u8]) -> (r: Self) {
        let u = <u64 as Log>::from_bytes(b);
        proof {
            let back = #[verifier::truncate] ((#[verifier::truncate] (u as i64)) as u64);
            assert(back == u) by (bit_vector)
                requires
                    back == #[verifier::truncate] ((#[verifier::truncate] (u as i64)) as u64),
            ;
        }
        #[verifier::truncate] (u as i64)
    }
}

impl<const N: usize> Log for [u8; N] {
    open spec fn width() -> nat {
        N as nat
    }

    open spec fn image(&self) -> Seq<u8> {
        self@
    }

    proof fn lemma_image(a: Self, b: Self) {
        if a.image() == b.image() {
            assert(a == b);
        }
    }

    fn byte_width() -> (r: usize) {
        N
    }

    fn to_bytes(&self) -> (r: Vec<u8>) {
        array_to_vec(self.as_slice())
    }

    fn from_bytes(b: &[u8]) -> (r: Self) {
        let mut a: [u8; N] = [0u8; N];
        let mut i: usize = 0;
        while i < N
            invariant
                i <= N,
                b@.len() == N,
                a@.len() == N,
                a@.take(i as int) == b@.take(i as int),
            decreases N - i,
        {
            a[i] = b[i];
            i = i + 1;
            assert(a@.take(i as int) =~= b@.take(i as int));
        }
        assert(a@.take(N as int) =~= a@);
        assert(b@.take(N as int) =~= b@);
        a
    }
}

} // verus!
