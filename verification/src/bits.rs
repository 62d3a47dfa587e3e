//! Bit fields of 16-bit register words.
use vstd::prelude::*;

verus! {

/// Bit `n` of a word.
pub open spec fn bit(word: u16, n: u16) -> bool {
    (word >> n) & 1 == 1
}

/// The field of a word that starts at bit `shift` and is as wide as `mask`.
pub open spec fn field(word: u16, shift: u16, mask: u16) -> u16 {
    (word >> shift) & mask
}

/// A word with that field replaced.
pub open spec fn with_field(word: u16, shift: u16, mask: u16, value: u16) -> u16 {
    (word & !(mask << shift)) | (value << shift)
}

/// Whether a mask has the shape of one of the device's fields: one, three or
/// four ones from bit 0 that, shifted, stay inside the word.
pub open spec fn is_field(shift: u16, mask: u16) -> bool {
    shift < 16 && (mask == 1 || mask == 7 || mask == 15) && (mask << shift) >> shift == mask
}

/// Read bit `n` of a word.
pub(crate) fn test_bit(word: u16, n: u16) -> (set: bool)
    requires
        n < 16,
    ensures
        set == bit(word, n),
{
    (word >> n) & 1 == 1
}

/// Read a field.
pub(crate) fn get_field(word: u16, shift: u16, mask: u16) -> (value: u16)
    requires
        shift < 16,
    ensures
        value == field(word, shift, mask),
        value <= mask,
{
    proof {
        assert((word >> shift) & mask <= mask) by (bit_vector);
    }
    (word >> shift) & mask
}

/// Replace a field.
pub(crate) fn set_field(word: u16, shift: u16, mask: u16, value: u16) -> (updated: u16)
    requires
        shift < 16,
    ensures
        updated == with_field(word, shift, mask, value),
{
    (word & !(mask << shift)) | (value << shift)
}

/// A replaced field reads back, and the word outside it is untouched.
pub proof fn lemma_field_replaced(word: u16, shift: u16, mask: u16, value: u16)
    requires
        is_field(shift, mask),
        value <= mask,
    ensures
        field(with_field(word, shift, mask, value), shift, mask) == value,
        with_field(word, shift, mask, value) & !(mask << shift) == word & !(mask << shift),
{
    assert((((word & !(mask << shift)) | (value << shift)) >> shift) & mask == value) by (bit_vector)
        requires
            shift < 16,
            mask == 1 || mask == 7 || mask == 15,
            (mask << shift) >> shift == mask,
            value <= mask,
    ;
    assert(((word & !(mask << shift)) | (value << shift)) & !(mask << shift) == word & !(mask
        << shift)) by (bit_vector)
        requires
            shift < 16,
            mask == 1 || mask == 7 || mask == 15,
            value <= mask,
    ;
}

/// Replacing a field leaves every field that does not overlap it as it was.
pub proof fn lemma_field_kept(
    word: u16,
    shift: u16,
    mask: u16,
    value: u16,
    other_shift: u16,
    other_mask: u16,
)
    requires
        is_field(shift, mask),
        value <= mask,
        other_shift < 16,
        (mask << shift) & (other_mask << other_shift) == 0,
    ensures
        field(with_field(word, shift, mask, value), other_shift, other_mask) == field(
            word,
            other_shift,
            other_mask,
        ),
{
    assert((((word & !(mask << shift)) | (value << shift)) >> other_shift) & other_mask == (word
        >> other_shift) & other_mask) by (bit_vector)
        requires
            shift < 16,
            other_shift < 16,
            mask == 1 || mask == 7 || mask == 15,
            value <= mask,
            (mask << shift) & (other_mask << other_shift) == 0,
    ;
}

} // verus!
