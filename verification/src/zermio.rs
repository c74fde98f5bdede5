//! Generic, access-controlled, cached register/bitfield runtime.
//!
//! A [`Register`] owns a cached value and a hardware address; a
//! [`BitField`] is a compile-time-parameterized view over a register's
//! cache. All bitfield operations work on the cache alone; hardware words
//! are touched only by the explicit `fetch` and `commit` operations, so
//! callers can batch several field updates into one hardware transaction.
//!
//! Contracts speak of values embedded into 64 bits; the spec functions
//! below ([`mask_value`], [`write_value`], …) define every operation.

use crate::access;
use vstd::prelude::*;

verus! {

/// The all-ones value of an unsigned type of the given bit width.
pub open spec fn ones_value(width: u64) -> u64 {
    if width == 64 {
        u64::MAX
    } else {
        ((1u64 << width) - 1) as u64
    }
}

/// The mask of a bitfield: all ones if the field spans the whole type,
/// else `((1 << bits) - 1) << off`.
pub open spec fn mask_value(off: u64, bits: u64, width: u64) -> u64 {
    if bits == width {
        ones_value(width)
    } else {
        (((1u64 << bits) - 1) as u64) << off
    }
}

/// The largest value a bitfield holds, unshifted.
pub open spec fn max_value(bits: u64, width: u64) -> u64 {
    if bits == width {
        ones_value(width)
    } else {
        ((1u64 << bits) - 1) as u64
    }
}

/// The cache after writing `v` to a field: the field's bits are cleared,
/// then `v`, shifted into place and truncated to the field, is set.
pub open spec fn write_value(cache: u64, v: u64, off: u64, bits: u64, width: u64) -> u64 {
    (cache & !mask_value(off, bits, width)) | ((v << off) & mask_value(off, bits, width))
}

/// The cache after merging `v` into a field: exactly the bits of
/// `(v << off) & mask` are set; field bits outside `v`'s own shifted
/// value stay untouched.
pub open spec fn merge_value(cache: u64, v: u64, off: u64, bits: u64, width: u64) -> u64 {
    cache | ((v << off) & mask_value(off, bits, width))
}

/// What reading a field returns: the field's bits, shifted down.
pub open spec fn read_value(cache: u64, off: u64, bits: u64, width: u64) -> u64 {
    (cache & mask_value(off, bits, width)) >> off
}

/// An unsigned machine integer whose value embeds into 64 bits.
///
/// This constrains the cache type of a [`Register`]; the arithmetic
/// methods replace the operator traits of ordinary Rust, each with an
/// exact contract over the embedded value.
pub trait UnsignedInteger: Sized + Copy {
    /// The numeric value, embedded into 64 bits.
    spec fn as64(self) -> u64;

    /// The bit width of the type.
    spec fn bit_width() -> u32;

    /// The width is between 1 and 64 bits.
    proof fn lemma_width()
        ensures
            1 <= Self::bit_width() <= 64,
    ;

    /// Every value fits in the type's width.
    proof fn lemma_bound(self)
        ensures
            self.as64() <= ones_value(Self::bit_width() as u64),
    ;

    /// The bit width of the type.
    fn bits() -> (r: u32)
        ensures
            r == Self::bit_width(),
    ;

    /// Conversion from `usize`, truncating to the type's width.
    fn from(x: usize) -> (r: Self)
        ensures
            r.as64() == (x as u64) & ones_value(Self::bit_width() as u64),
    ;

    /// Conversion from `u64`, truncating to the type's width.
    fn from64(x: u64) -> (r: Self)
        ensures
            r.as64() == x & ones_value(Self::bit_width() as u64),
    ;

    /// The all-ones value.
    fn max() -> (r: Self)
        ensures
            r.as64() == ones_value(Self::bit_width() as u64),
    ;

    /// Bitwise and.
    fn band(self, o: Self) -> (r: Self)
        ensures
            r.as64() == self.as64() & o.as64(),
    ;

    /// Bitwise or.
    fn bor(self, o: Self) -> (r: Self)
        ensures
            r.as64() == self.as64() | o.as64(),
    ;

    /// Bitwise exclusive or.
    fn bxor(self, o: Self) -> (r: Self)
        ensures
            r.as64() == self.as64() ^ o.as64(),
    ;

    /// Bitwise complement within the type's width.
    fn bnot(self) -> (r: Self)
        ensures
            r.as64() == !self.as64() & ones_value(Self::bit_width() as u64),
    ;

    /// Left shift by less than the type's width, truncating.
    fn shl(self, n: u32) -> (r: Self)
        requires
            n < Self::bit_width(),
        ensures
            r.as64() == (self.as64() << n) & ones_value(Self::bit_width() as u64),
    ;

    /// Right shift by less than the type's width.
    fn shr(self, n: u32) -> (r: Self)
        requires
            n < Self::bit_width(),
        ensures
            r.as64() == self.as64() >> n,
    ;

    /// Value equality.
    fn eq_to(self, o: Self) -> (r: bool)
        ensures
            r == (self.as64() == o.as64()),
    ;

    /// Value comparison.
    fn le(self, o: Self) -> (r: bool)
        ensures
            r == (self.as64() <= o.as64()),
    ;
}

impl UnsignedInteger for u32 {
    open spec fn as64(self) -> u64 {
        self as u64
    }

    open spec fn bit_width() -> u32 {
        32
    }

    proof fn lemma_width() {
    }

    proof fn lemma_bound(self) {
        assert((1u64 << 32u64) - 1 == 0xFFFF_FFFFu64) by (bit_vector);
        assert(self as u64 <= 0xFFFF_FFFFu64) by (bit_vector);
    }

    fn bits() -> (r: u32) {
        32
    }

    fn from(x: usize) -> (r: Self) {
        proof {
            assert((1u64 << 32u64) - 1 == 0xFFFF_FFFFu64) by (bit_vector);
            assert((x as u32) as u64 == (x as u64) & 0xFFFF_FFFFu64) by (bit_vector);
        }
        x as u32
    }

    fn from64(x: u64) -> (r: Self) {
        proof {
            assert((1u64 << 32u64) - 1 == 0xFFFF_FFFFu64) by (bit_vector);
            assert((x as u32) as u64 == x & 0xFFFF_FFFFu64) by (bit_vector);
        }
        x as u32
    }

    fn max() -> (r: Self) {
        proof {
            assert((1u64 << 32u64) - 1 == 0xFFFF_FFFFu64) by (bit_vector);
        }
        u32::MAX
    }

    fn band(self, o: Self) -> (r: Self) {
        proof {
            assert((self & o) as u64 == (self as u64) & (o as u64)) by (bit_vector);
        }
        self & o
    }

    fn bor(self, o: Self) -> (r: Self) {
        proof {
            assert((self | o) as u64 == (self as u64) | (o as u64)) by (bit_vector);
        }
        self | o
    }

    fn bxor(self, o: Self) -> (r: Self) {
        proof {
            assert((self ^ o) as u64 == (self as u64) ^ (o as u64)) by (bit_vector);
        }
        self ^ o
    }

    fn bnot(self) -> (r: Self) {
        proof {
            assert((1u64 << 32u64) - 1 == 0xFFFF_FFFFu64) by (bit_vector);
            assert((!self) as u64 == !(self as u64) & 0xFFFF_FFFFu64) by (bit_vector);
        }
        !self
    }

    fn shl(self, n: u32) -> (r: Self) {
        proof {
            assert((1u64 << 32u64) - 1 == 0xFFFF_FFFFu64) by (bit_vector);
            assert((self << n) as u64 == ((self as u64) << n) & 0xFFFF_FFFFu64) by (bit_vector)
                requires
                    n < 32u32,
            ;
        }
        self << n
    }

    fn shr(self, n: u32) -> (r: Self) {
        proof {
            assert((self >> n) as u64 == (self as u64) >> n) by (bit_vector)
                requires
                    n < 32u32,
            ;
        }
        self >> n
    }

    fn eq_to(self, o: Self) -> (r: bool) {
        self == o
    }

    fn le(self, o: Self) -> (r: bool) {
        self <= o
    }
}

impl UnsignedInteger for u64 {
    open spec fn as64(self) -> u64 {
        self
    }

    open spec fn bit_width() -> u32 {
        64
    }

    proof fn lemma_width() {
    }

    proof fn lemma_bound(self) {
    }

    fn bits() -> (r: u32) {
        64
    }

    fn from(x: usize) -> (r: Self) {
        proof {
            assert((x as u64) & u64::MAX == (x as u64)) by (bit_vector);
        }
        x as u64
    }

    fn from64(x: u64) -> (r: Self) {
        proof {
            assert(x & u64::MAX == x) by (bit_vector);
        }
        x
    }

    fn max() -> (r: Self) {
        u64::MAX
    }

    fn band(self, o: Self) -> (r: Self) {
        self & o
    }

    fn bor(self, o: Self) -> (r: Self) {
        self | o
    }

    fn bxor(self, o: Self) -> (r: Self) {
        self ^ o
    }

    fn bnot(self) -> (r: Self) {
        proof {
            assert(!self & u64::MAX == !self) by (bit_vector);
        }
        !self
    }

    fn shl(self, n: u32) -> (r: Self) {
        proof {
            assert((self << n) & u64::MAX == (self << n)) by (bit_vector);
        }
        self << n
    }

    fn shr(self, n: u32) -> (r: Self) {
        self >> n
    }

    fn eq_to(self, o: Self) -> (r: bool) {
        self == o
    }

    fn le(self, o: Self) -> (r: bool) {
        self <= o
    }
}

/// A hardware register: a cached value and a fixed hardware address.
///
/// `commit` and `fetch` are the only operations that touch a hardware
/// word, and each does exactly one transfer in one direction.
pub struct Register<T> {
    /// The cached value all bitfield views operate on.
    pub cache: T,
    /// The hardware address this register is bound to.
    pub addr: usize,
}

impl<T: UnsignedInteger> Register<T> {
    /// A register bound to a hardware address, its cache cleared.
    pub fn new(addr: usize) -> (r: Self)
        ensures
            r.cache.as64() == 0,
            r.addr == addr,
    {
        let cache = T::from64(0);
        proof {
            let m = ones_value(T::bit_width() as u64);
            assert(0u64 & m == 0u64) by (bit_vector);
        }
        Register { cache, addr }
    }

    /// Writes the cached value to the hardware word; never reads it.
    pub fn commit(&self, hw: &mut T)
        ensures
            *final(hw) == self.cache,
    {
        *hw = self.cache;
    }

    /// Reads the hardware word into the cache; never writes it.
    pub fn fetch(&mut self, hw: &T)
        ensures
            final(self).cache == *hw,
            final(self).addr == old(self).addr,
    {
        self.cache = *hw;
    }
}

/// A bound view over a register's cache: a field of `BITS` bits starting
/// `OFFSET` bits above the least significant bit.
///
/// `ACCESS` is one of the [`crate::access`] markers; read operations
/// exist only for readable fields and mutations only for writable ones.
pub struct BitField<const OFFSET: usize, const BITS: usize, T, ACCESS> {
    reg: Register<T>,
    access: core::marker::PhantomData<ACCESS>,
}

impl<const OFFSET: usize, const BITS: usize, T: UnsignedInteger, ACCESS> BitField<
    OFFSET,
    BITS,
    T,
    ACCESS,
> {
    /// A field holds at least one bit and fits inside its register's
    /// type.
    pub open spec fn valid() -> bool {
        0 < BITS && OFFSET + BITS <= T::bit_width()
    }

    /// A field that spans its register's type whole; its mask and its
    /// largest value are all ones whatever the offset says.
    pub open spec fn full_width() -> bool {
        BITS == T::bit_width()
    }

    /// The embedded value of the underlying register's cache.
    pub closed spec fn cache64(self) -> u64 {
        self.reg.cache.as64()
    }

    /// The hardware address of the underlying register.
    pub closed spec fn spec_addr(self) -> usize {
        self.reg.addr
    }

    /// The field's mask, shifted into place.
    pub open spec fn spec_mask() -> u64 {
        mask_value(OFFSET as u64, BITS as u64, T::bit_width() as u64)
    }

    /// The largest value the field holds, unshifted.
    pub open spec fn spec_max() -> u64 {
        max_value(BITS as u64, T::bit_width() as u64)
    }

    /// Binds a view over the given register.
    pub fn new(reg: Register<T>) -> (s: Self)
        requires
            Self::valid() || Self::full_width(),
        ensures
            s.cache64() == reg.cache.as64(),
            s.spec_addr() == reg.addr,
    {
        BitField { reg, access: core::marker::PhantomData }
    }

    /// Releases the underlying register.
    pub fn into_inner(self) -> (r: Register<T>)
        ensures
            r.cache.as64() == self.cache64(),
            r.addr == self.spec_addr(),
    {
        self.reg
    }

    /// All-ones of the register type if the field spans it whole, else
    /// `((1 << BITS) - 1) << OFFSET`.
    pub fn mask(&self) -> (r: T)
        requires
            Self::valid() || Self::full_width(),
        ensures
            r.as64() == Self::spec_mask(),
    {
        proof {
            T::lemma_width();
        }
        if BITS == T::bits() as usize {
            return T::max();
        }
        let ghost b = BITS as u64;
        let ghost f = OFFSET as u64;
        let ghost w = T::bit_width() as u64;
        proof {
            assert(1u64 <= (1u64 << b)) by (bit_vector)
                requires
                    b < 64u64,
            ;
            assert((((1u64 << b) - 1) as u64) << f == ((((1u64 << b) - 1) as u64) << f) & (if w
                == 64 {
                u64::MAX
            } else {
                ((1u64 << w) - 1) as u64
            })) by (bit_vector)
                requires
                    b + f <= w <= 64,
                    b < w,
            ;
        }
        T::from64(((1u64 << (BITS as u64)) - 1) << (OFFSET as u64))
    }

    /// The field's largest representable value, unshifted.
    pub fn max(&self) -> (r: T)
        requires
            Self::valid() || Self::full_width(),
        ensures
            r.as64() == Self::spec_max(),
    {
        proof {
            T::lemma_width();
        }
        if BITS == T::bits() as usize {
            return T::max();
        }
        let ghost b = BITS as u64;
        let ghost w = T::bit_width() as u64;
        proof {
            assert(1u64 <= (1u64 << b)) by (bit_vector)
                requires
                    b < 64u64,
            ;
            assert(((1u64 << b) - 1) as u64 == (((1u64 << b) - 1) as u64) & (if w == 64 {
                u64::MAX
            } else {
                ((1u64 << w) - 1) as u64
            })) by (bit_vector)
                requires
                    b < w <= 64,
            ;
        }
        T::from64((1u64 << (BITS as u64)) - 1)
    }

    /// Whether the field's largest value is at most `val`.
    pub fn in_range(&self, val: T) -> (r: bool)
        requires
            Self::valid() || Self::full_width(),
        ensures
            r == (Self::spec_max() <= val.as64()),
    {
        self.max().le(val)
    }
}

impl<const OFFSET: usize, const BITS: usize, T: UnsignedInteger, ACCESS: access::Writable> BitField<
    OFFSET,
    BITS,
    T,
    ACCESS,
> {
    /// Clears the field, then sets `value`'s bits, truncated to the
    /// field, in the cache.
    pub fn write(&mut self, value: T)
        requires
            Self::valid(),
        ensures
            final(self).cache64() == write_value(
                old(self).cache64(),
                value.as64(),
                OFFSET as u64,
                BITS as u64,
                T::bit_width() as u64,
            ),
            final(self).spec_addr() == old(self).spec_addr(),
    {
        proof {
            T::lemma_width();
        }
        self.clear();
        let shifted = value.shl(OFFSET as u32);
        let add_on = shifted.band(self.mask());
        self.reg.cache = self.reg.cache.bor(add_on);
        proof {
            let c = old(self).cache64();
            let v = value.as64();
            let f = OFFSET as u64;
            let b = BITS as u64;
            let w = T::bit_width() as u64;
            let m = mask_value(f, b, w);
            let o = ones_value(w);
            value.lemma_bound();
            assert(((v << f) & o) & m == (v << f) & m) by (bit_vector)
                requires
                    b + f <= w <= 64,
                    1 <= w,
                    o == (if w == 64 {
                        u64::MAX
                    } else {
                        ((1u64 << w) - 1) as u64
                    }),
                    m == (if b == w {
                        o
                    } else {
                        (((1u64 << b) - 1) as u64) << f
                    }),
                    v <= o,
            ;
        }
    }

    /// Zeroes the field's bits in the cache.
    pub fn clear(&mut self)
        requires
            Self::valid(),
        ensures
            final(self).cache64() == old(self).cache64() & !Self::spec_mask(),
            final(self).spec_addr() == old(self).spec_addr(),
    {
        proof {
            T::lemma_width();
        }
        let not_mask = self.mask().bnot();
        self.reg.cache = self.reg.cache.band(not_mask);
        proof {
            let c = old(self).cache64();
            let f = OFFSET as u64;
            let b = BITS as u64;
            let w = T::bit_width() as u64;
            let m = mask_value(f, b, w);
            let o = ones_value(w);
            old(self).reg.cache.lemma_bound();
            assert(c & (!m & o) == c & !m) by (bit_vector)
                requires
                    c <= o,
                    o == (if w == 64 {
                        u64::MAX
                    } else {
                        ((1u64 << w) - 1) as u64
                    }),
                    1 <= w <= 64,
            ;
        }
    }

    /// Merges `value` into the field without first clearing it: exactly
    /// the bits of `(value << OFFSET) & mask` are cleared and then set,
    /// leaving field bits outside `value`'s own shifted value untouched.
    pub fn write_mask(&mut self, val: T)
        requires
            Self::valid(),
        ensures
            final(self).cache64() == merge_value(
                old(self).cache64(),
                val.as64(),
                OFFSET as u64,
                BITS as u64,
                T::bit_width() as u64,
            ),
            final(self).spec_addr() == old(self).spec_addr(),
    {
        proof {
            T::lemma_width();
        }
        let shifted = val.shl(OFFSET as u32);
        let update = shifted.band(self.mask());
        let keep = update.bnot();
        self.reg.cache = self.reg.cache.band(keep);
        self.reg.cache = self.reg.cache.bor(update);
        proof {
            let c = old(self).cache64();
            let v = val.as64();
            let f = OFFSET as u64;
            let b = BITS as u64;
            let w = T::bit_width() as u64;
            let m = mask_value(f, b, w);
            let o = ones_value(w);
            val.lemma_bound();
            old(self).reg.cache.lemma_bound();
            assert((c & (!(((v << f) & o) & m) & o)) | (((v << f) & o) & m) == c | ((v << f) & m))
                by (bit_vector)
                requires
                    b + f <= w <= 64,
                    1 <= w,
                    o == (if w == 64 {
                        u64::MAX
                    } else {
                        ((1u64 << w) - 1) as u64
                    }),
                    m == (if b == w {
                        o
                    } else {
                        (((1u64 << b) - 1) as u64) << f
                    }),
                    v <= o,
                    c <= o,
            ;
        }
    }

    /// Writes the cached value to the hardware word.
    pub fn commit(&self, hw: &mut T)
        ensures
            final(hw).as64() == self.cache64(),
    {
        self.reg.commit(hw);
    }
}

impl<const OFFSET: usize, T: UnsignedInteger, ACCESS: access::Writable> BitField<
    OFFSET,
    1,
    T,
    ACCESS,
> {
    /// Forces the single-bit field to one.
    pub fn set(&mut self)
        requires
            Self::valid(),
        ensures
            final(self).cache64() == old(self).cache64() | (1u64 << (OFFSET as u64)),
            final(self).spec_addr() == old(self).spec_addr(),
    {
        proof {
            T::lemma_width();
        }
        let bit = T::from64(1u64 << (OFFSET as u64));
        self.reg.cache = self.reg.cache.bor(bit);
        proof {
            let f = OFFSET as u64;
            let w = T::bit_width() as u64;
            assert((1u64 << f) & (if w == 64 {
                u64::MAX
            } else {
                ((1u64 << w) - 1) as u64
            }) == (1u64 << f)) by (bit_vector)
                requires
                    f < w <= 64,
            ;
        }
    }

    /// Forces the single-bit field to zero.
    pub fn reset(&mut self)
        requires
            Self::valid(),
        ensures
            final(self).cache64() == old(self).cache64() & !Self::spec_mask(),
            final(self).spec_addr() == old(self).spec_addr(),
    {
        self.clear();
    }

    /// Flips the single-bit field.
    pub fn toggle(&mut self)
        requires
            Self::valid(),
        ensures
            final(self).cache64() == old(self).cache64() ^ (1u64 << (OFFSET as u64)),
            final(self).spec_addr() == old(self).spec_addr(),
    {
        proof {
            T::lemma_width();
        }
        let bit = T::from64(1u64 << (OFFSET as u64));
        self.reg.cache = self.reg.cache.bxor(bit);
        proof {
            let f = OFFSET as u64;
            let w = T::bit_width() as u64;
            assert((1u64 << f) & (if w == 64 {
                u64::MAX
            } else {
                ((1u64 << w) - 1) as u64
            }) == (1u64 << f)) by (bit_vector)
                requires
                    f < w <= 64,
            ;
        }
    }

    /// Clears the single-bit field, then sets it when `bit` holds.
    pub fn assign(&mut self, bit: bool)
        requires
            Self::valid(),
        ensures
            final(self).cache64() == (old(self).cache64() & !(1u64 << (OFFSET as u64))) | (
            if bit {
                1u64 << (OFFSET as u64)
            } else {
                0u64
            }),
            final(self).spec_addr() == old(self).spec_addr(),
    {
        proof {
            T::lemma_width();
        }
        let mask_bit = T::from64(1u64 << (OFFSET as u64));
        let keep = mask_bit.bnot();
        self.reg.cache = self.reg.cache.band(keep);
        let set_bit: u64 = if bit {
            1u64 << (OFFSET as u32)
        } else {
            0u64
        };
        let add_on = T::from64(set_bit);
        self.reg.cache = self.reg.cache.bor(add_on);
        proof {
            let c = old(self).cache64();
            let f = OFFSET as u64;
            let w = T::bit_width() as u64;
            let o = ones_value(w);
            old(self).reg.cache.lemma_bound();
            assert((1u64 << f) & o == (1u64 << f) && 0u64 & o == 0u64 && (c & (!((1u64 << f) & o)
                & o)) == (c & !(1u64 << f))) by (bit_vector)
                requires
                    f < w <= 64,
                    o == (if w == 64 {
                        u64::MAX
                    } else {
                        ((1u64 << w) - 1) as u64
                    }),
                    c <= o,
            ;
        }
    }
}

impl<const OFFSET: usize, const BITS: usize, T: UnsignedInteger, ACCESS: access::Readable> BitField<
    OFFSET,
    BITS,
    T,
    ACCESS,
> {
    /// The field's bits of the cache, shifted down.
    pub fn get(&self) -> (r: T)
        requires
            Self::valid(),
        ensures
            r.as64() == read_value(
                self.cache64(),
                OFFSET as u64,
                BITS as u64,
                T::bit_width() as u64,
            ),
    {
        proof {
            T::lemma_width();
        }
        let masked = self.reg.cache.band(self.mask());
        masked.shr(OFFSET as u32)
    }

    /// Reads the hardware word into the owning register's cache.
    pub fn fetch(&mut self, hw: &T)
        ensures
            final(self).cache64() == hw.as64(),
            final(self).spec_addr() == old(self).spec_addr(),
    {
        self.reg.fetch(hw);
    }
}

impl<const OFFSET: usize, T: UnsignedInteger, ACCESS: access::Readable> BitField<
    OFFSET,
    1,
    T,
    ACCESS,
> {
    /// Whether the single-bit field is set in the cache.
    pub fn is_set(&self) -> (r: bool)
        requires
            Self::valid(),
        ensures
            r == (self.cache64() & Self::spec_mask() == Self::spec_mask()),
    {
        self.reg.cache.band(self.mask()).eq_to(self.mask())
    }
}

/// For a 32-bit register type, the mask of a field with `o + w < 32` is
/// `((1 << w) - 1) << o`, and the mask of a full-width field is all ones
/// whatever its offset.
pub proof fn lemma_mask_shape(o: u64, w: u64)
    ensures
        o + w < 32 ==> mask_value(o, w, 32) == (((1u64 << w) - 1) as u64) << o,
        w == 32 ==> mask_value(o, w, 32) == 0xFFFF_FFFFu64,
{
    assert((1u64 << 32u64) - 1 == 0xFFFF_FFFFu64) by (bit_vector);
}

/// Writing `v` to a field and reading it back, with no hardware round
/// trip in between, returns `v` truncated to the field's largest value.
pub proof fn lemma_write_read(cache: u64, v: u64, o: u64, b: u64, w: u64)
    requires
        o + b <= w <= 64,
        1 <= w,
    ensures
        read_value(write_value(cache, v, o, b, w), o, b, w) == v & max_value(b, w),
{
    let m = mask_value(o, b, w);
    let x = max_value(b, w);
    let on = ones_value(w);
    assert((((cache & !m) | ((v << o) & m)) & m) >> o == v & x) by (bit_vector)
        requires
            o + b <= w <= 64,
            1 <= w,
            on == (if w == 64 {
                u64::MAX
            } else {
                ((1u64 << w) - 1) as u64
            }),
            m == (if b == w {
                on
            } else {
                (((1u64 << b) - 1) as u64) << o
            }),
            x == (if b == w {
                on
            } else {
                ((1u64 << b) - 1) as u64
            }),
    ;
}

/// Merging the same value into a field twice leaves the same cache as
/// merging it once.
pub proof fn lemma_merge_idempotent(cache: u64, v: u64, o: u64, b: u64, w: u64)
    ensures
        merge_value(merge_value(cache, v, o, b, w), v, o, b, w) == merge_value(cache, v, o, b, w),
{
    let m = mask_value(o, b, w);
    assert((cache | ((v << o) & m)) | ((v << o) & m) == cache | ((v << o) & m)) by (bit_vector);
}

} // verus!
