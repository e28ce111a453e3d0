//! Big-endian numeric codec: a specification of the byte encoding, the `Num`
//! trait that every tape-addressable integer width implements, and the proof
//! that encoding and decoding are mutual inverses.

use vstd::prelude::*;

use crate::text::{dec_i64_to_bytes, dec_u64_to_bytes, int_dec_bytes};

verus! {

/// `256` raised to the given power: the number of values `w` bytes can hold.
pub open spec fn pow256(w: nat) -> nat
    decreases w,
{
    if w == 0 {
        1
    } else {
        256 * pow256((w - 1) as nat)
    }
}

/// Big-endian bytes of `v`, `w` of them, most significant first.  High bits
/// beyond `w` bytes are dropped.
pub open spec fn be_bytes(v: nat, w: nat) -> Seq<u8>
    decreases w,
{
    if w == 0 {
        Seq::empty()
    } else {
        be_bytes(v / 256, (w - 1) as nat) + seq![(v % 256) as u8]
    }
}

/// Value of a big-endian byte string.
pub open spec fn be_val(s: Seq<u8>) -> nat
    decreases s.len(),
{
    if s.len() == 0 {
        0
    } else {
        be_val(s.drop_last()) * 256 + (s.last() as nat)
    }
}

/// An encoding at width `w` has exactly `w` bytes.
pub proof fn lemma_be_bytes_len(v: nat, w: nat)
    ensures
        be_bytes(v, w).len() == w,
    decreases w,
{
    if w > 0 {
        lemma_be_bytes_len(v / 256, (w - 1) as nat);
    }
}

/// Decoding the encoding of a value small enough for its width gives the
/// value back.
pub proof fn lemma_be_val_be_bytes(v: nat, w: nat)
    requires
        v < pow256(w),
    ensures
        be_val(be_bytes(v, w)) == v,
    decreases w,
{
    if w == 0 {
        assert(v == 0);
    } else {
        let tail = seq![(v % 256) as u8];
        let head = be_bytes(v / 256, (w - 1) as nat);
        assert((head + tail).drop_last() =~= head);
        assert((head + tail).last() == (v % 256) as u8);
        assert(v / 256 < pow256((w - 1) as nat)) by (nonlinear_arith)
            requires
                v < 256 * pow256((w - 1) as nat),
        ;
        lemma_be_val_be_bytes(v / 256, (w - 1) as nat);
        assert(v / 256 * 256 + v % 256 == v) by (nonlinear_arith);
    }
}

/// A byte string's value fits in its own width.
pub proof fn lemma_be_val_bound(s: Seq<u8>)
    ensures
        be_val(s) < pow256(s.len()),
    decreases s.len(),
{
    if s.len() > 0 {
        lemma_be_val_bound(s.drop_last());
        assert(be_val(s.drop_last()) * 256 + s.last() < 256 * pow256((s.len() - 1) as nat))
            by (nonlinear_arith)
            requires
                be_val(s.drop_last()) < pow256((s.len() - 1) as nat),
                s.last() < 256,
        ;
    }
}

/// Encoding the value of a byte string at its own width gives the string
/// back.
pub proof fn lemma_be_bytes_be_val(s: Seq<u8>)
    ensures
        be_bytes(be_val(s), s.len()) == s,
    decreases s.len(),
{
    if s.len() > 0 {
        let a = be_val(s.drop_last());
        let b = s.last() as nat;
        assert((a * 256 + b) / 256 == a && (a * 256 + b) % 256 == b) by (nonlinear_arith)
            requires
                b < 256,
        ;
        lemma_be_bytes_be_val(s.drop_last());
        assert(be_bytes(be_val(s), s.len()) =~= s);
    }
}

/// Executable big-endian encoder for values carried in a `u64`.
pub fn be_encode(v: u64, w: usize) -> (r: Vec<u8>)
    ensures
        r@ == be_bytes(v as nat, w as nat),
    decreases w,
{
    if w == 0 {
        let r: Vec<u8> = Vec::new();
        assert(r@ =~= be_bytes(v as nat, 0));
        r
    } else {
        let mut r = be_encode(v / 256, w - 1);
        r.push((v % 256) as u8);
        assert(r@ =~= be_bytes(v as nat, w as nat));
        r
    }
}

/// Executable big-endian decoder of the first `w` bytes of `v`.
pub fn be_decode(v: &Vec<u8>, w: usize) -> (r: u64)
    requires
        w <= 8,
        w <= v@.len(),
    ensures
        r as nat == be_val(v@.take(w as int)),
{
    let mut acc: u64 = 0;
    let mut i: usize = 0;
    while i < w
        invariant
            0 <= i <= w <= 8,
            w <= v@.len(),
            acc as nat == be_val(v@.take(i as int)),
            (acc as nat) < pow256(i as nat),
        decreases w - i,
    {
        let ghost prefix = v@.take(i as int);
        let ghost prefix2 = v@.take(i + 1 as int);
        proof {
            assert(prefix2.drop_last() =~= prefix);
            assert(prefix2.last() == v@[i as int]);
            lemma_pow256_values();
            assert(pow256(i as nat) * 256 <= pow256(8)) by {
                lemma_pow256_increases((i + 1) as nat, 8);
            }
            assert(acc * 256 + v@[i as int] < pow256((i + 1) as nat)) by (nonlinear_arith)
                requires
                    (acc as nat) < pow256(i as nat),
                    v@[i as int] < 256,
                    pow256((i + 1) as nat) == 256 * pow256(i as nat),
            ;
        }
        acc = acc * 256 + (v[i] as u64);
        i += 1;
    }
    acc
}

/// Larger widths can hold no fewer values.
pub proof fn lemma_pow256_increases(a: nat, b: nat)
    requires
        a <= b,
    ensures
        pow256(a) <= pow256(b),
    decreases b,
{
    if a < b {
        lemma_pow256_increases(a, (b - 1) as nat);
        assert(pow256((b - 1) as nat) <= 256 * pow256((b - 1) as nat)) by (nonlinear_arith)
            requires
                pow256((b - 1) as nat) >= 0,
        ;
    }
}

/// The widths the tape works with, as concrete cell counts.
pub proof fn lemma_pow256_values()
    ensures
        pow256(0) == 1,
        pow256(1) == 0x100,
        pow256(2) == 0x1_0000,
        pow256(4) == 0x1_0000_0000,
        pow256(8) == 0x1_0000_0000_0000_0000,
{
    assert(pow256(0) == 1);
    assert(pow256(1) == 0x100);
    assert(pow256(2) == 0x1_0000);
    assert(pow256(3) == 0x100_0000);
    assert(pow256(4) == 0x1_0000_0000);
    assert(pow256(5) == 0x100_0000_0000);
    assert(pow256(6) == 0x1_0000_0000_0000);
    assert(pow256(7) == 0x100_0000_0000_0000);
    assert(pow256(8) == 0x1_0000_0000_0000_0000);
}

/// A numeric type the tape can read and write: it knows its width, its
/// big-endian byte encoding and its decimal rendering.
pub trait Num: Sized + Copy {
    /// Width of the encoding, in bytes.
    spec fn spec_width() -> nat;

    /// Bit pattern of the value, read as the unsigned number its bytes
    /// encode.
    spec fn to_unsigned(self) -> nat;

    /// Value whose bit pattern is the given unsigned number.
    spec fn of_unsigned(n: nat) -> Self;

    /// Numeric value, sign included.
    spec fn to_int(self) -> int;

    /// The bit pattern fits the width, and taking it apart and putting it
    /// back together changes nothing.
    proof fn lemma_unsigned_inverse(self)
        ensures
            self.to_unsigned() < pow256(Self::spec_width()),
            Self::of_unsigned(self.to_unsigned()) == self,
    ;

    /// Returns the number of bytes of the type.
    fn number_of_bytes() -> (n: usize)
        ensures
            n as nat == Self::spec_width(),
    ;

    /// Returns the bytes of the value in big-endian byte order.
    fn get_bytes(self) -> (r: Vec<u8>)
        ensures
            r@ == be_bytes(self.to_unsigned(), Self::spec_width()),
    ;

    /// Creates a value from the leading bytes of a vector.
    fn from(v: Vec<u8>) -> (r: Self)
        requires
            v@.len() >= Self::spec_width(),
        ensures
            r == Self::of_unsigned(be_val(v@.take(Self::spec_width() as int))),
    ;

    /// Decimal rendering of the value, as ASCII bytes.
    fn text(self) -> (r: Vec<u8>)
        ensures
            r@ == int_dec_bytes(self.to_int()),
    ;
}

/// Round-trip law: decoding the big-endian encoding of any representable
/// value yields that value again, at every width the tape supports.
pub proof fn lemma_codec_round_trip<T: Num>(x: T)
    ensures
        T::of_unsigned(be_val(be_bytes(x.to_unsigned(), T::spec_width()))) == x,
{
    x.lemma_unsigned_inverse();
    lemma_be_val_be_bytes(x.to_unsigned(), T::spec_width());
}

impl Num for u8 {
    open spec fn spec_width() -> nat {
        1
    }

    open spec fn to_unsigned(self) -> nat {
        self as nat
    }

    open spec fn of_unsigned(n: nat) -> Self {
        n as u8
    }

    open spec fn to_int(self) -> int {
        self as int
    }

    proof fn lemma_unsigned_inverse(self) {
        lemma_pow256_values();
    }

    fn number_of_bytes() -> usize {
        1
    }

    fn get_bytes(self) -> Vec<u8> {
        be_encode(self as u64, 1)
    }

    fn from(v: Vec<u8>) -> (r: Self) {
        proof {
            lemma_be_val_bound(v@.take(1));
            lemma_pow256_values();
        }
        let u = be_decode(&v, 1);
        u as u8
    }

    fn text(self) -> Vec<u8> {
        dec_u64_to_bytes(self as u64)
    }
}

impl Num for u16 {
    open spec fn spec_width() -> nat {
        2
    }

    open spec fn to_unsigned(self) -> nat {
        self as nat
    }

    open spec fn of_unsigned(n: nat) -> Self {
        n as u16
    }

    open spec fn to_int(self) -> int {
        self as int
    }

    proof fn lemma_unsigned_inverse(self) {
        lemma_pow256_values();
    }

    fn number_of_bytes() -> usize {
        2
    }

    fn get_bytes(self) -> Vec<u8> {
        be_encode(self as u64, 2)
    }

    fn from(v: Vec<u8>) -> (r: Self) {
        proof {
            lemma_be_val_bound(v@.take(2));
            lemma_pow256_values();
        }
        let u = be_decode(&v, 2);
        u as u16
    }

    fn text(self) -> Vec<u8> {
        dec_u64_to_bytes(self as u64)
    }
}

impl Num for u32 {
    open spec fn spec_width() -> nat {
        4
    }

    open spec fn to_unsigned(self) -> nat {
        self as nat
    }

    open spec fn of_unsigned(n: nat) -> Self {
        n as u32
    }

    open spec fn to_int(self) -> int {
        self as int
    }

    proof fn lemma_unsigned_inverse(self) {
        lemma_pow256_values();
    }

    fn number_of_bytes() -> usize {
        4
    }

    fn get_bytes(self) -> Vec<u8> {
        be_encode(self as u64, 4)
    }

    fn from(v: Vec<u8>) -> (r: Self) {
        proof {
            lemma_be_val_bound(v@.take(4));
            lemma_pow256_values();
        }
        let u = be_decode(&v, 4);
        u as u32
    }

    fn text(self) -> Vec<u8> {
        dec_u64_to_bytes(self as u64)
    }
}

impl Num for u64 {
    open spec fn spec_width() -> nat {
        8
    }

    open spec fn to_unsigned(self) -> nat {
        self as nat
    }

    open spec fn of_unsigned(n: nat) -> Self {
        n as u64
    }

    open spec fn to_int(self) -> int {
        self as int
    }

    proof fn lemma_unsigned_inverse(self) {
        lemma_pow256_values();
    }

    fn number_of_bytes() -> usize {
        8
    }

    fn get_bytes(self) -> Vec<u8> {
        be_encode(self, 8)
    }

    fn from(v: Vec<u8>) -> (r: Self) {
        be_decode(&v, 8)
    }

    fn text(self) -> Vec<u8> {
        dec_u64_to_bytes(self)
    }
}

impl Num for i8 {
    open spec fn spec_width() -> nat {
        1
    }

    open spec fn to_unsigned(self) -> nat {
        if self < 0 {
            (self + 256) as nat
        } else {
            self as nat
        }
    }

    open spec fn of_unsigned(n: nat) -> Self {
        if n >= 128 {
            (n - 256) as i8
        } else {
            n as i8
        }
    }

    open spec fn to_int(self) -> int {
        self as int
    }

    proof fn lemma_unsigned_inverse(self) {
        lemma_pow256_values();
    }

    fn number_of_bytes() -> usize {
        1
    }

    fn get_bytes(self) -> Vec<u8> {
        let u: u64 = if self < 0 {
            (self as i64 + 256) as u64
        } else {
            self as u64
        };
        be_encode(u, 1)
    }

    fn from(v: Vec<u8>) -> (r: Self) {
        proof {
            lemma_be_val_bound(v@.take(1));
            lemma_pow256_values();
        }
        let u = be_decode(&v, 1);
        if u >= 128 {
            (u as i64 - 256) as i8
        } else {
            u as i8
        }
    }

    fn text(self) -> Vec<u8> {
        dec_i64_to_bytes(self as i64)
    }
}

impl Num for i16 {
    open spec fn spec_width() -> nat {
        2
    }

    open spec fn to_unsigned(self) -> nat {
        if self < 0 {
            (self + 0x1_0000) as nat
        } else {
            self as nat
        }
    }

    open spec fn of_unsigned(n: nat) -> Self {
        if n >= 0x8000 {
            (n - 0x1_0000) as i16
        } else {
            n as i16
        }
    }

    open spec fn to_int(self) -> int {
        self as int
    }

    proof fn lemma_unsigned_inverse(self) {
        lemma_pow256_values();
    }

    fn number_of_bytes() -> usize {
        2
    }

    fn get_bytes(self) -> Vec<u8> {
        let u: u64 = if self < 0 {
            (self as i64 + 0x1_0000) as u64
        } else {
            self as u64
        };
        be_encode(u, 2)
    }

    fn from(v: Vec<u8>) -> (r: Self) {
        proof {
            lemma_be_val_bound(v@.take(2));
            lemma_pow256_values();
        }
        let u = be_decode(&v, 2);
        if u >= 0x8000 {
            (u as i64 - 0x1_0000) as i16
        } else {
            u as i16
        }
    }

    fn text(self) -> Vec<u8> {
        dec_i64_to_bytes(self as i64)
    }
}

impl Num for i32 {
    open spec fn spec_width() -> nat {
        4
    }

    open spec fn to_unsigned(self) -> nat {
        if self < 0 {
            (self + 0x1_0000_0000) as nat
        } else {
            self as nat
        }
    }

    open spec fn of_unsigned(n: nat) -> Self {
        if n >= 0x8000_0000 {
            (n - 0x1_0000_0000) as i32
        } else {
            n as i32
        }
    }

    open spec fn to_int(self) -> int {
        self as int
    }

    proof fn lemma_unsigned_inverse(self) {
        lemma_pow256_values();
    }

    fn number_of_bytes() -> usize {
        4
    }

    fn get_bytes(self) -> Vec<u8> {
        let u: u64 = if self < 0 {
            (self as i64 + 0x1_0000_0000) as u64
        } else {
            self as u64
        };
        be_encode(u, 4)
    }

    fn from(v: Vec<u8>) -> (r: Self) {
        proof {
            lemma_be_val_bound(v@.take(4));
            lemma_pow256_values();
        }
        let u = be_decode(&v, 4);
        if u >= 0x8000_0000 {
            (u as i64 - 0x1_0000_0000) as i32
        } else {
            u as i32
        }
    }

    fn text(self) -> Vec<u8> {
        dec_i64_to_bytes(self as i64)
    }
}

impl Num for i64 {
    open spec fn spec_width() -> nat {
        8
    }

    open spec fn to_unsigned(self) -> nat {
        if self < 0 {
            (self + 0x1_0000_0000_0000_0000) as nat
        } else {
            self as nat
        }
    }

    open spec fn of_unsigned(n: nat) -> Self {
        if n >= 0x8000_0000_0000_0000 {
            (n - 0x1_0000_0000_0000_0000) as i64
        } else {
            n as i64
        }
    }

    open spec fn to_int(self) -> int {
        self as int
    }

    proof fn lemma_unsigned_inverse(self) {
        lemma_pow256_values();
    }

    fn number_of_bytes() -> usize {
        8
    }

    fn get_bytes(self) -> Vec<u8> {
        let u: u64 = if self < 0 {
            (self as i128 + 0x1_0000_0000_0000_0000) as u64
        } else {
            self as u64
        };
        be_encode(u, 8)
    }

    fn from(v: Vec<u8>) -> (r: Self) {
        proof {
            lemma_be_val_bound(v@.take(8));
            lemma_pow256_values();
        }
        let u = be_decode(&v, 8);
        if u >= 0x8000_0000_0000_0000 {
            ((u as i128) - 0x1_0000_0000_0000_0000) as i64
        } else {
            u as i64
        }
    }

    fn text(self) -> Vec<u8> {
        dec_i64_to_bytes(self)
    }
}

} // verus!
