//! Bit fields inside machine words: a field is a mask and an offset; `set`
//! ors a value into the field's bits and `get` reads them back.
use vstd::prelude::*;
use std::marker::PhantomData;

verus! {

/// Words that bit fields can live in, with the operations a field needs.
pub trait BitWord: Copy + Sized {
    spec fn word_and(self, other: Self) -> Self;

    spec fn word_or(self, other: Self) -> Self;

    spec fn word_shl(self, by: Self) -> Self;

    spec fn word_shr(self, by: Self) -> Self;

    /// Whether shifting by `by` stays inside the word.
    spec fn word_shift_ok(by: Self) -> bool;

    fn bit_and(self, other: Self) -> (r: Self)
        ensures
            r == self.word_and(other),
    ;

    fn bit_or(self, other: Self) -> (r: Self)
        ensures
            r == self.word_or(other),
    ;

    fn shift_left(self, by: Self) -> (r: Self)
        requires
            Self::word_shift_ok(by),
        ensures
            r == self.word_shl(by),
    ;

    fn shift_right(self, by: Self) -> (r: Self)
        requires
            Self::word_shift_ok(by),
        ensures
            r == self.word_shr(by),
    ;
}

impl BitWord for u64 {
    open spec fn word_and(self, other: u64) -> u64 {
        self & other
    }

    open spec fn word_or(self, other: u64) -> u64 {
        self | other
    }

    open spec fn word_shl(self, by: u64) -> u64 {
        self << by
    }

    open spec fn word_shr(self, by: u64) -> u64 {
        self >> by
    }

    open spec fn word_shift_ok(by: u64) -> bool {
        by < 64
    }

    fn bit_and(self, other: u64) -> (r: u64) {
        self & other
    }

    fn bit_or(self, other: u64) -> (r: u64) {
        self | other
    }

    fn shift_left(self, by: u64) -> (r: u64) {
        self << by
    }

    fn shift_right(self, by: u64) -> (r: u64) {
        self >> by
    }
}

impl BitWord for u32 {
    open spec fn word_and(self, other: u32) -> u32 {
        self & other
    }

    open spec fn word_or(self, other: u32) -> u32 {
        self | other
    }

    open spec fn word_shl(self, by: u32) -> u32 {
        self << by
    }

    open spec fn word_shr(self, by: u32) -> u32 {
        self >> by
    }

    open spec fn word_shift_ok(by: u32) -> bool {
        by < 32
    }

    fn bit_and(self, other: u32) -> (r: u32) {
        self & other
    }

    fn bit_or(self, other: u32) -> (r: u32) {
        self | other
    }

    fn shift_left(self, by: u32) -> (r: u32) {
        self << by
    }

    fn shift_right(self, by: u32) -> (r: u32) {
        self >> by
    }
}

impl BitWord for u16 {
    open spec fn word_and(self, other: u16) -> u16 {
        self & other
    }

    open spec fn word_or(self, other: u16) -> u16 {
        self | other
    }

    open spec fn word_shl(self, by: u16) -> u16 {
        self << by
    }

    open spec fn word_shr(self, by: u16) -> u16 {
        self >> by
    }

    open spec fn word_shift_ok(by: u16) -> bool {
        by < 16
    }

    fn bit_and(self, other: u16) -> (r: u16) {
        self & other
    }

    fn bit_or(self, other: u16) -> (r: u16) {
        self | other
    }

    fn shift_left(self, by: u16) -> (r: u16) {
        self << by
    }

    fn shift_right(self, by: u16) -> (r: u16) {
        self >> by
    }
}

impl BitWord for u8 {
    open spec fn word_and(self, other: u8) -> u8 {
        self & other
    }

    open spec fn word_or(self, other: u8) -> u8 {
        self | other
    }

    open spec fn word_shl(self, by: u8) -> u8 {
        self << by
    }

    open spec fn word_shr(self, by: u8) -> u8 {
        self >> by
    }

    open spec fn word_shift_ok(by: u8) -> bool {
        by < 8
    }

    fn bit_and(self, other: u8) -> (r: u8) {
        self & other
    }

    fn bit_or(self, other: u8) -> (r: u8) {
        self | other
    }

    fn shift_left(self, by: u8) -> (r: u8) {
        self << by
    }

    fn shift_right(self, by: u8) -> (r: u8) {
        self >> by
    }
}

/// A field of `N` bits in a word of any width: `mask` selects the field's
/// bits once shifted down by `offset`.
pub struct BitField<T: BitWord, const N: usize> {
    pub mask: T,
    pub offset: T,
}

impl<T: BitWord, const N: usize> BitField<T, N> {
    /// Values are not checked against the field.
    pub fn check_value(&self, value: &T) {
    }

    /// The number of bits of the field.
    pub fn len(&self) -> (r: usize)
        ensures
            r == N,
    {
        N
    }

    /// `bits` with `value`, cut to the mask, ored in at the field's offset.
    pub fn set(&self, bits: T, value: T) -> (r: T)
        requires
            T::word_shift_ok(self.offset),
        ensures
            r == bits.word_or(value.word_and(self.mask).word_shl(self.offset)),
    {
        self.check_value(&value);
        bits.bit_or(value.bit_and(self.mask).shift_left(self.offset))
    }

    /// The field's bits of `value`, shifted down.
    pub fn get(&self, value: T) -> (r: T)
        requires
            T::word_shift_ok(self.offset),
        ensures
            r == value.word_shr(self.offset).word_and(self.mask),
    {
        value.shift_right(self.offset).bit_and(self.mask)
    }
}

/// A field of `N` bits in a `u64`.
pub struct BitSet64<const N: usize> {
    mask: u64,
    offset: u8,
}

impl<const N: usize> BitSet64<N> {
    pub closed spec fn spec_mask(&self) -> u64 {
        self.mask
    }

    pub closed spec fn spec_offset(&self) -> u8 {
        self.offset
    }

    /// The field with the given mask and offset; the offset cannot pass the word.
    pub fn new(mask: u64, offset: u8) -> (r: Self)
        requires
            offset <= 64,
        ensures
            r.spec_mask() == mask,
            r.spec_offset() == offset,
    {
        Self { mask, offset }
    }

    /// `bits` with `value`, cut to the mask, ored in at the field's offset.
    /// The value must lie below the mask shifted to the field.
    pub fn set(&self, bits: u64, value: u64) -> (r: u64)
        requires
            self.spec_offset() < 64,
            value < (self.spec_mask() << self.spec_offset()),
        ensures
            r == bits | ((value & self.spec_mask()) << self.spec_offset()),
    {
        bits | ((value & self.mask) << self.offset)
    }

    /// The field's bits of `bits`, shifted down.
    pub fn get(&self, bits: u64) -> (r: u64)
        requires
            self.spec_offset() < 64,
        ensures
            r == (bits >> self.spec_offset()) & self.spec_mask(),
    {
        (bits >> self.offset) & self.mask
    }

    /// `bits` with the field's bits cleared.
    pub fn clear(&self, bits: u64) -> (r: u64)
        requires
            self.spec_offset() < 64,
        ensures
            r == bits & !(self.spec_mask() << self.spec_offset()),
    {
        bits & !(self.mask << self.offset)
    }
}

/// A field of `N` bits in a `u32`.
pub struct BitSet32<const N: usize> {
    mask: u32,
    offset: u8,
}

impl<const N: usize> BitSet32<N> {
    pub closed spec fn spec_mask(&self) -> u32 {
        self.mask
    }

    pub closed spec fn spec_offset(&self) -> u8 {
        self.offset
    }

    /// The field with the given mask and offset; the offset cannot pass the word.
    pub fn new(mask: u32, offset: u8) -> (r: Self)
        requires
            offset <= 32,
        ensures
            r.spec_mask() == mask,
            r.spec_offset() == offset,
    {
        Self { mask, offset }
    }

    /// `bits` with `value`, cut to the mask, ored in at the field's offset.
    /// The value must lie below the mask shifted to the field.
    pub fn set(&self, bits: u32, value: u32) -> (r: u32)
        requires
            self.spec_offset() < 32,
            value < (self.spec_mask() << self.spec_offset()),
        ensures
            r == bits | ((value & self.spec_mask()) << self.spec_offset()),
    {
        bits | ((value & self.mask) << self.offset)
    }

    /// The field's bits of `bits`, shifted down.
    pub fn get(&self, bits: u32) -> (r: u32)
        requires
            self.spec_offset() < 32,
        ensures
            r == (bits >> self.spec_offset()) & self.spec_mask(),
    {
        (bits >> self.offset) & self.mask
    }

    /// `bits` with the field's bits cleared.
    pub fn clear(&self, bits: u32) -> (r: u32)
        requires
            self.spec_offset() < 32,
        ensures
            r == bits & !(self.spec_mask() << self.spec_offset()),
    {
        bits & !(self.mask << self.offset)
    }

    /// The number of bits of the field.
    pub fn len(&self) -> (r: usize)
        ensures
            r == N,
    {
        N
    }
}

/// A field of `N` bits in a `u16`.
pub struct BitSet16<const N: usize> {
    mask: u16,
    offset: u8,
}

impl<const N: usize> BitSet16<N> {
    pub closed spec fn spec_mask(&self) -> u16 {
        self.mask
    }

    pub closed spec fn spec_offset(&self) -> u8 {
        self.offset
    }

    /// The field with the given mask and offset; the offset cannot pass the word.
    pub fn new(mask: u16, offset: u8) -> (r: Self)
        requires
            offset <= 16,
        ensures
            r.spec_mask() == mask,
            r.spec_offset() == offset,
    {
        Self { mask, offset }
    }

    /// `bits` with `value`, cut to the mask, ored in at the field's offset.
    /// The value must lie below the mask shifted to the field.
    pub fn set(&self, bits: u16, value: u16) -> (r: u16)
        requires
            self.spec_offset() < 16,
            value < (self.spec_mask() << self.spec_offset()),
        ensures
            r == bits | ((value & self.spec_mask()) << self.spec_offset()),
    {
        bits | ((value & self.mask) << self.offset)
    }

    /// The field's bits of `bits`, shifted down.
    pub fn get(&self, bits: u16) -> (r: u16)
        requires
            self.spec_offset() < 16,
        ensures
            r == (bits >> self.spec_offset()) & self.spec_mask(),
    {
        (bits >> self.offset) & self.mask
    }

    /// `bits` with the field's bits cleared.
    pub fn clear(&self, bits: u16) -> (r: u16)
        requires
            self.spec_offset() < 16,
        ensures
            r == bits & !(self.spec_mask() << self.spec_offset()),
    {
        bits & !(self.mask << self.offset)
    }
}

/// A field of `N` bits in a `u8`.
pub struct BitSet8<const N: usize> {
    mask: u8,
    offset: u8,
}

impl<const N: usize> BitSet8<N> {
    pub closed spec fn spec_mask(&self) -> u8 {
        self.mask
    }

    pub closed spec fn spec_offset(&self) -> u8 {
        self.offset
    }

    /// The field with the given mask and offset; the offset cannot pass the word.
    pub fn new(mask: u8, offset: u8) -> (r: Self)
        requires
            offset <= 8,
        ensures
            r.spec_mask() == mask,
            r.spec_offset() == offset,
    {
        Self { mask, offset }
    }

    /// `bits` with `value`, cut to the mask, ored in at the field's offset.
    /// The value must lie below the mask shifted to the field.
    pub fn set(&self, bits: u8, value: u8) -> (r: u8)
        requires
            self.spec_offset() < 8,
            value < (self.spec_mask() << self.spec_offset()),
        ensures
            r == bits | ((value & self.spec_mask()) << self.spec_offset()),
    {
        bits | ((value & self.mask) << self.offset)
    }

    /// The field's bits of `bits`, shifted down.
    pub fn get(&self, bits: u8) -> (r: u8)
        requires
            self.spec_offset() < 8,
        ensures
            r == (bits >> self.spec_offset()) & self.spec_mask(),
    {
        (bits >> self.offset) & self.mask
    }

    /// `bits` with the field's bits cleared.
    pub fn clear(&self, bits: u8) -> (r: u8)
        requires
            self.spec_offset() < 8,
        ensures
            r == bits & !(self.spec_mask() << self.spec_offset()),
    {
        bits & !(self.mask << self.offset)
    }
}

/// A word of 64 bits that holds `N` fields.
pub struct Bits64<const N: usize>(pub u64);

/// A word of 32 bits that holds `N` fields.
pub struct Bits32<const N: usize>(pub u32);

/// A word of 16 bits that holds `N` fields.
pub struct Bits16<const N: usize>(pub u16);

/// A word of 8 bits that holds `N` fields.
pub struct Bits8<const N: usize>(pub u8);

impl<const N: usize> Bits64<N> {
    /// The word `value`; a word holds fewer than 8 fields.
    pub fn new(value: u64) -> (r: Self)
        requires
            N < 8,
        ensures
            r.0 == value,
    {
        Self(value)
    }
}

/// A compile-time condition.
pub struct Assert<const CHECK: bool>;

/// Conditions that hold.
pub trait IsTrue {}

impl IsTrue for Assert<true> {}

} // verus!

verus! {

/// A masked value never exceeds its mask.
pub proof fn lemma_and_le_u8(x: u8, m: u8)
    by (bit_vector)
    ensures
        x & m <= m,
{
}

/// A masked value never exceeds its mask.
pub proof fn lemma_and_le_u16(x: u16, m: u16)
    by (bit_vector)
    ensures
        x & m <= m,
{
}

/// A masked value never exceeds its mask.
pub proof fn lemma_and_le_u32(x: u32, m: u32)
    by (bit_vector)
    ensures
        x & m <= m,
{
}

/// A masked value never exceeds its mask.
pub proof fn lemma_and_le_u64(x: u64, m: u64)
    by (bit_vector)
    ensures
        x & m <= m,
{
}

} // verus!
