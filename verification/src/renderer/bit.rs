use vstd::prelude::*;

verus! {

/// Whether bit `offset` (0 = least significant) of `byte` is set.
pub open spec fn bit_is_set(byte: u8, offset: int) -> bool {
    (byte >> (offset as u8)) & 1 == 1
}

/// `byte` with bit `offset` set to `value` and every other bit kept.
pub open spec fn with_bit(byte: u8, offset: int, value: bool) -> u8 {
    if value {
        byte | (1u8 << (offset as u8))
    } else {
        byte & !(1u8 << (offset as u8))
    }
}

/// A read-only handle on one bit of a byte.
pub struct Bit<'a> {
    byte: &'a u8,
    offset: usize,
}

impl<'a> Bit<'a> {
    pub closed spec fn byte(&self) -> u8 {
        *self.byte
    }

    pub closed spec fn offset(&self) -> usize {
        self.offset
    }

    pub fn new(byte: &'a u8, offset: usize) -> (r: Self)
        ensures
            r.byte() == *byte,
            r.offset() == offset,
    {
        Self { byte, offset }
    }

    pub fn get(&self) -> (r: bool)
        requires
            self.offset() < 8,
        ensures
            r == bit_is_set(self.byte(), self.offset() as int),
    {
        get(*self.byte, self.offset)
    }
}

/// A mutable handle on one bit of a byte.
pub struct BitMut<'a> {
    pub byte: &'a mut u8,
    pub offset: usize,
}

impl<'a> BitMut<'a> {
    /// The current value of the referenced byte.
    pub open spec fn byte(&self) -> u8 {
        *self.byte
    }

    pub open spec fn offset(&self) -> usize {
        self.offset
    }

    pub fn new(byte: &'a mut u8, offset: usize) -> (r: Self)
        ensures
            r.byte() == *old(byte),
            *final(r.byte) == *final(byte),
            r.offset() == offset,
    {
        Self { byte, offset }
    }

    pub fn get(&self) -> (r: bool)
        requires
            self.offset() < 8,
        ensures
            r == bit_is_set(self.byte(), self.offset() as int),
    {
        get(*self.byte, self.offset)
    }

    pub fn set(&mut self)
        requires
            old(self).offset() < 8,
        ensures
            final(self).offset() == old(self).offset(),
            *final(final(self).byte) == *final(old(self).byte),
            final(self).byte() == with_bit(old(self).byte(), old(self).offset() as int, true),
    {
        set(self.byte, self.offset)
    }

    pub fn reset(&mut self)
        requires
            old(self).offset() < 8,
        ensures
            final(self).offset() == old(self).offset(),
            *final(final(self).byte) == *final(old(self).byte),
            final(self).byte() == with_bit(old(self).byte(), old(self).offset() as int, false),
    {
        reset(self.byte, self.offset)
    }
}

fn get(byte: u8, offset: usize) -> (r: bool)
    requires
        offset < 8,
    ensures
        r == bit_is_set(byte, offset as int),
{
    let o = offset as u8;
    let r = (byte & (1u8 << o)) != 0;
    assert(((byte & (1u8 << o)) != 0) == ((byte >> o) & 1 == 1)) by (bit_vector)
        requires
            o < 8,
    ;
    r
}

fn set(byte: &mut u8, offset: usize)
    requires
        offset < 8,
    ensures
        *final(byte) == with_bit(*old(byte), offset as int, true),
{
    *byte = *byte | (1u8 << (offset as u8));
}

fn reset(byte: &mut u8, offset: usize)
    requires
        offset < 8,
    ensures
        *final(byte) == with_bit(*old(byte), offset as int, false),
{
    *byte = *byte & !(1u8 << (offset as u8));
}

/// Writing a bit and reading it back gives the written value, and no other bit of the
/// byte changes.
pub proof fn lemma_write_then_read(byte: u8, offset: int, value: bool, other: int)
    requires
        0 <= offset < 8,
        0 <= other < 8,
    ensures
        bit_is_set(with_bit(byte, offset, value), offset) == value,
        other != offset ==> bit_is_set(with_bit(byte, offset, value), other) == bit_is_set(
            byte,
            other,
        ),
{
    let o = offset as u8;
    let p = other as u8;
    assert(((byte | (1u8 << o)) >> o) & 1 == 1) by (bit_vector)
        requires
            o < 8,
    ;
    assert(((byte & !(1u8 << o)) >> o) & 1 == 0) by (bit_vector)
        requires
            o < 8,
    ;
    assert(p != o ==> ((byte | (1u8 << o)) >> p) & 1 == (byte >> p) & 1) by (bit_vector)
        requires
            o < 8,
            p < 8,
    ;
    assert(p != o ==> ((byte & !(1u8 << o)) >> p) & 1 == (byte >> p) & 1) by (bit_vector)
        requires
            o < 8,
            p < 8,
    ;
}

} // verus!
