//! Offset-binary handling of unsigned PCM samples: an unsigned sample is
//! processed as the signed sample of the same width whose value is lower by
//! half the range, and turned back by the inverse shift. Flipping the top
//! bit performs both directions.
use vstd::prelude::*;

verus! {

/// The signed 8-bit value that the unsigned sample `sample` stands for.
pub open spec fn u8_to_signed_spec(sample: u8) -> i8 {
    (sample - 0x80) as i8
}

/// The unsigned 8-bit value that stands for the signed sample `sample`.
pub open spec fn i8_to_unsigned_spec(sample: i8) -> u8 {
    (sample + 0x80) as u8
}

/// The signed sample that an unsigned 8-bit sample stands for.
pub fn u8_to_signed(sample: u8) -> (signed: i8)
    ensures
        signed == sample - 0x80,
        signed == u8_to_signed_spec(sample),
{
    assert((sample ^ 0x80u8) as i8 == sample - 0x80) by (bit_vector);
    (sample ^ 0x80) as i8
}

/// The unsigned 8-bit sample that stands for a signed one.
pub fn i8_to_unsigned(sample: i8) -> (unsigned: u8)
    ensures
        unsigned == sample + 0x80,
        unsigned == i8_to_unsigned_spec(sample),
{
    assert((sample as u8) ^ 0x80u8 == sample + 0x80) by (bit_vector);
    (sample as u8) ^ 0x80
}

/// The signed 16-bit value that the unsigned sample `sample` stands for.
pub open spec fn u16_to_signed_spec(sample: u16) -> i16 {
    (sample - 0x8000) as i16
}

/// The unsigned 16-bit value that stands for the signed sample `sample`.
pub open spec fn i16_to_unsigned_spec(sample: i16) -> u16 {
    (sample + 0x8000) as u16
}

/// The signed sample that an unsigned 16-bit sample stands for.
pub fn u16_to_signed(sample: u16) -> (signed: i16)
    ensures
        signed == sample - 0x8000,
        signed == u16_to_signed_spec(sample),
{
    assert((sample ^ 0x8000u16) as i16 == sample - 0x8000) by (bit_vector);
    (sample ^ 0x8000) as i16
}

/// The unsigned 16-bit sample that stands for a signed one.
pub fn i16_to_unsigned(sample: i16) -> (unsigned: u16)
    ensures
        unsigned == sample + 0x8000,
        unsigned == i16_to_unsigned_spec(sample),
{
    assert((sample as u16) ^ 0x8000u16 == sample + 0x8000) by (bit_vector);
    (sample as u16) ^ 0x8000
}

/// The signed 32-bit value that the unsigned sample `sample` stands for.
pub open spec fn u32_to_signed_spec(sample: u32) -> i32 {
    (sample - 0x8000_0000) as i32
}

/// The unsigned 32-bit value that stands for the signed sample `sample`.
pub open spec fn i32_to_unsigned_spec(sample: i32) -> u32 {
    (sample + 0x8000_0000) as u32
}

/// The signed sample that an unsigned 32-bit sample stands for.
pub fn u32_to_signed(sample: u32) -> (signed: i32)
    ensures
        signed == sample - 0x8000_0000,
        signed == u32_to_signed_spec(sample),
{
    assert((sample ^ 0x8000_0000u32) as i32 == sample - 0x8000_0000) by (bit_vector);
    (sample ^ 0x8000_0000) as i32
}

/// The unsigned 32-bit sample that stands for a signed one.
pub fn i32_to_unsigned(sample: i32) -> (unsigned: u32)
    ensures
        unsigned == sample + 0x8000_0000,
        unsigned == i32_to_unsigned_spec(sample),
{
    assert((sample as u32) ^ 0x8000_0000u32 == sample + 0x8000_0000) by (bit_vector);
    (sample as u32) ^ 0x8000_0000
}

/// Law: turning an unsigned 8-bit sample to signed and back gives it back,
/// and so does the other order.
pub proof fn lemma_bias_8_roundtrip(unsigned: u8, signed: i8)
    ensures
        i8_to_unsigned_spec(u8_to_signed_spec(unsigned)) == unsigned,
        u8_to_signed_spec(i8_to_unsigned_spec(signed)) == signed,
{
}

/// Law: turning an unsigned 16-bit sample to signed and back gives it back,
/// and so does the other order.
pub proof fn lemma_bias_16_roundtrip(unsigned: u16, signed: i16)
    ensures
        i16_to_unsigned_spec(u16_to_signed_spec(unsigned)) == unsigned,
        u16_to_signed_spec(i16_to_unsigned_spec(signed)) == signed,
{
}

/// Law: turning an unsigned 32-bit sample to signed and back gives it back,
/// and so does the other order.
pub proof fn lemma_bias_32_roundtrip(unsigned: u32, signed: i32)
    ensures
        i32_to_unsigned_spec(u32_to_signed_spec(unsigned)) == unsigned,
        u32_to_signed_spec(i32_to_unsigned_spec(signed)) == signed,
{
}

} // verus!
