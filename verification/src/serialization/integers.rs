//! The integers of the protocol: little-endian, signed ones in two's
//! complement.

use vstd::prelude::*;
use crate::error::Error;
use crate::layout::{le_bytes, le_value, radix, twos_complement};
use crate::layout::{
    lemma_le_bytes_injective, lemma_le_bytes_len, lemma_le_bytes_of_value, lemma_le_bytes_split,
    lemma_le_value_bound, lemma_radix_values,
};
use crate::serialization::{Deserializable, Serializable, SliceCursor};

verus! {

/// The widths of the integer types, in bytes.
spec fn is_integer_width(width: usize) -> bool {
    width == 1 || width == 2 || width == 4 || width == 8
}

/// The signed numbers that `width` bytes hold in two's complement.
spec fn in_signed_range(value: int, width: nat) -> bool {
    -(radix(width) as int) <= 2 * value < radix(width)
}

/// `radix(width)` as a machine number.
fn radix_of(width: usize) -> (r: i128)
    requires
        is_integer_width(width),
    ensures
        r == radix(width as nat),
{
    proof {
        lemma_radix_values();
    }
    if width == 1 {
        0x100
    } else if width == 2 {
        0x1_0000
    } else if width == 4 {
        0x1_0000_0000
    } else {
        0x1_0000_0000_0000_0000
    }
}

/// The unsigned number that stands for `value` in two's complement of
/// `width` bytes.
fn to_twos_complement(value: i64, width: usize) -> (image: u64)
    requires
        is_integer_width(width),
        in_signed_range(value as int, width as nat),
    ensures
        image == twos_complement(value as int, width as nat),
        image < radix(width as nat),
{
    proof {
        lemma_radix_values();
    }
    if value >= 0 {
        value as u64
    } else {
        (value as i128 + radix_of(width)) as u64
    }
}

/// The signed number that `image` stands for in two's complement of `width`
/// bytes.
fn from_twos_complement(image: u64, width: usize) -> (value: i64)
    requires
        is_integer_width(width),
        image < radix(width as nat),
    ensures
        in_signed_range(value as int, width as nat),
        twos_complement(value as int, width as nat) == image,
{
    proof {
        lemma_radix_values();
    }
    let radix = radix_of(width);
    if 2 * (image as i128) < radix {
        image as i64
    } else {
        (image as i128 - radix) as i64
    }
}

/// What the integer codecs need to know of the bytes they read: the number
/// read fits the width, and is written as those bytes again.
proof fn lemma_image_read(image: Seq<u8>)
    ensures
        le_value(image) < radix(image.len()),
        le_bytes(le_value(image), image.len()) == image,
{
    lemma_le_value_bound(image);
    lemma_le_bytes_of_value(image);
}

impl Serializable for u8 {
    open spec fn width() -> nat {
        1
    }

    open spec fn wire(&self) -> Seq<u8> {
        le_bytes(*self as nat, 1)
    }

    proof fn lemma_wire_width(&self) {
        lemma_le_bytes_len(*self as nat, 1);
        assert(self.wire() == le_bytes(*self as nat, 1));
        assert(Self::width() == 1);
    }

    proof fn lemma_wire_injective(&self, other: &Self) {
        lemma_radix_values();
        lemma_le_bytes_injective(*self as nat, *other as nat, 1);
    }

    fn fits_in(room: usize) -> (fits: bool) {
        room >= 1
    }

    fn serialize(&self, cursor: &mut SliceCursor) -> (r: Result<(), Error>) {
        proof {
            self.lemma_wire_width();
        }
        cursor.write_le(*self as u64, 1)
    }
}

impl Deserializable for u8 {
    fn deserialize(cursor: &mut SliceCursor) -> (r: Result<Self, Error>) {
        let value = cursor.read_le(1)?;
        proof {
            lemma_radix_values();
            lemma_image_read(old(cursor)@.ahead().take(1));
        }
        Ok(value as u8)
    }
}

impl Serializable for u16 {
    open spec fn width() -> nat {
        2
    }

    open spec fn wire(&self) -> Seq<u8> {
        le_bytes(*self as nat, 2)
    }

    proof fn lemma_wire_width(&self) {
        lemma_le_bytes_len(*self as nat, 2);
        assert(self.wire() == le_bytes(*self as nat, 2));
        assert(Self::width() == 2);
    }

    proof fn lemma_wire_injective(&self, other: &Self) {
        lemma_radix_values();
        lemma_le_bytes_injective(*self as nat, *other as nat, 2);
    }

    fn fits_in(room: usize) -> (fits: bool) {
        room >= 2
    }

    fn serialize(&self, cursor: &mut SliceCursor) -> (r: Result<(), Error>) {
        proof {
            self.lemma_wire_width();
        }
        cursor.write_le(*self as u64, 2)
    }
}

impl Deserializable for u16 {
    fn deserialize(cursor: &mut SliceCursor) -> (r: Result<Self, Error>) {
        let value = cursor.read_le(2)?;
        proof {
            lemma_radix_values();
            lemma_image_read(old(cursor)@.ahead().take(2));
        }
        Ok(value as u16)
    }
}

impl Serializable for u32 {
    open spec fn width() -> nat {
        4
    }

    open spec fn wire(&self) -> Seq<u8> {
        le_bytes(*self as nat, 4)
    }

    proof fn lemma_wire_width(&self) {
        lemma_le_bytes_len(*self as nat, 4);
        assert(self.wire() == le_bytes(*self as nat, 4));
        assert(Self::width() == 4);
    }

    proof fn lemma_wire_injective(&self, other: &Self) {
        lemma_radix_values();
        lemma_le_bytes_injective(*self as nat, *other as nat, 4);
    }

    fn fits_in(room: usize) -> (fits: bool) {
        room >= 4
    }

    fn serialize(&self, cursor: &mut SliceCursor) -> (r: Result<(), Error>) {
        proof {
            self.lemma_wire_width();
        }
        cursor.write_le(*self as u64, 4)
    }
}

impl Deserializable for u32 {
    fn deserialize(cursor: &mut SliceCursor) -> (r: Result<Self, Error>) {
        let value = cursor.read_le(4)?;
        proof {
            lemma_radix_values();
            lemma_image_read(old(cursor)@.ahead().take(4));
        }
        Ok(value as u32)
    }
}

impl Serializable for u64 {
    open spec fn width() -> nat {
        8
    }

    open spec fn wire(&self) -> Seq<u8> {
        le_bytes(*self as nat, 8)
    }

    proof fn lemma_wire_width(&self) {
        lemma_le_bytes_len(*self as nat, 8);
        assert(self.wire() == le_bytes(*self as nat, 8));
        assert(Self::width() == 8);
    }

    proof fn lemma_wire_injective(&self, other: &Self) {
        lemma_radix_values();
        lemma_le_bytes_injective(*self as nat, *other as nat, 8);
    }

    fn fits_in(room: usize) -> (fits: bool) {
        room >= 8
    }

    fn serialize(&self, cursor: &mut SliceCursor) -> (r: Result<(), Error>) {
        proof {
            self.lemma_wire_width();
        }
        cursor.write_le(*self, 8)
    }
}

impl Deserializable for u64 {
    fn deserialize(cursor: &mut SliceCursor) -> (r: Result<Self, Error>) {
        let value = cursor.read_le(8)?;
        proof {
            lemma_radix_values();
            lemma_image_read(old(cursor)@.ahead().take(8));
        }
        Ok(value)
    }
}

impl Serializable for i8 {
    open spec fn width() -> nat {
        1
    }

    open spec fn wire(&self) -> Seq<u8> {
        le_bytes(twos_complement(*self as int, 1), 1)
    }

    proof fn lemma_wire_width(&self) {
        lemma_le_bytes_len(twos_complement(*self as int, 1), 1);
        assert(self.wire() == le_bytes(twos_complement(*self as int, 1), 1));
        assert(Self::width() == 1);
    }

    proof fn lemma_wire_injective(&self, other: &Self) {
        let mine = twos_complement(*self as int, 1);
        let theirs = twos_complement(*other as int, 1);
        lemma_radix_values();
        lemma_le_bytes_injective(mine, theirs, 1);
    }

    fn fits_in(room: usize) -> (fits: bool) {
        room >= 1
    }

    fn serialize(&self, cursor: &mut SliceCursor) -> (r: Result<(), Error>) {
        proof {
            lemma_radix_values();
            self.lemma_wire_width();
        }
        cursor.write_le(to_twos_complement(*self as i64, 1), 1)
    }
}

impl Deserializable for i8 {
    fn deserialize(cursor: &mut SliceCursor) -> (r: Result<Self, Error>) {
        let image = cursor.read_le(1)?;
        proof {
            lemma_radix_values();
            lemma_image_read(old(cursor)@.ahead().take(1));
        }
        let value = from_twos_complement(image, 1);
        Ok(value as i8)
    }
}

impl Serializable for i16 {
    open spec fn width() -> nat {
        2
    }

    open spec fn wire(&self) -> Seq<u8> {
        le_bytes(twos_complement(*self as int, 2), 2)
    }

    proof fn lemma_wire_width(&self) {
        lemma_le_bytes_len(twos_complement(*self as int, 2), 2);
        assert(self.wire() == le_bytes(twos_complement(*self as int, 2), 2));
        assert(Self::width() == 2);
    }

    proof fn lemma_wire_injective(&self, other: &Self) {
        let mine = twos_complement(*self as int, 2);
        let theirs = twos_complement(*other as int, 2);
        lemma_radix_values();
        lemma_le_bytes_injective(mine, theirs, 2);
    }

    fn fits_in(room: usize) -> (fits: bool) {
        room >= 2
    }

    fn serialize(&self, cursor: &mut SliceCursor) -> (r: Result<(), Error>) {
        proof {
            lemma_radix_values();
            self.lemma_wire_width();
        }
        cursor.write_le(to_twos_complement(*self as i64, 2), 2)
    }
}

impl Deserializable for i16 {
    fn deserialize(cursor: &mut SliceCursor) -> (r: Result<Self, Error>) {
        let image = cursor.read_le(2)?;
        proof {
            lemma_radix_values();
            lemma_image_read(old(cursor)@.ahead().take(2));
        }
        let value = from_twos_complement(image, 2);
        Ok(value as i16)
    }
}

impl Serializable for i32 {
    open spec fn width() -> nat {
        4
    }

    open spec fn wire(&self) -> Seq<u8> {
        le_bytes(twos_complement(*self as int, 4), 4)
    }

    proof fn lemma_wire_width(&self) {
        lemma_le_bytes_len(twos_complement(*self as int, 4), 4);
        assert(self.wire() == le_bytes(twos_complement(*self as int, 4), 4));
        assert(Self::width() == 4);
    }

    proof fn lemma_wire_injective(&self, other: &Self) {
        let mine = twos_complement(*self as int, 4);
        let theirs = twos_complement(*other as int, 4);
        lemma_radix_values();
        lemma_le_bytes_injective(mine, theirs, 4);
    }

    fn fits_in(room: usize) -> (fits: bool) {
        room >= 4
    }

    fn serialize(&self, cursor: &mut SliceCursor) -> (r: Result<(), Error>) {
        proof {
            lemma_radix_values();
            self.lemma_wire_width();
        }
        cursor.write_le(to_twos_complement(*self as i64, 4), 4)
    }
}

impl Deserializable for i32 {
    fn deserialize(cursor: &mut SliceCursor) -> (r: Result<Self, Error>) {
        let image = cursor.read_le(4)?;
        proof {
            lemma_radix_values();
            lemma_image_read(old(cursor)@.ahead().take(4));
        }
        let value = from_twos_complement(image, 4);
        Ok(value as i32)
    }
}

impl Serializable for i64 {
    open spec fn width() -> nat {
        8
    }

    open spec fn wire(&self) -> Seq<u8> {
        le_bytes(twos_complement(*self as int, 8), 8)
    }

    proof fn lemma_wire_width(&self) {
        lemma_le_bytes_len(twos_complement(*self as int, 8), 8);
        assert(self.wire() == le_bytes(twos_complement(*self as int, 8), 8));
        assert(Self::width() == 8);
    }

    proof fn lemma_wire_injective(&self, other: &Self) {
        let mine = twos_complement(*self as int, 8);
        let theirs = twos_complement(*other as int, 8);
        lemma_radix_values();
        lemma_le_bytes_injective(mine, theirs, 8);
    }

    fn fits_in(room: usize) -> (fits: bool) {
        room >= 8
    }

    fn serialize(&self, cursor: &mut SliceCursor) -> (r: Result<(), Error>) {
        proof {
            lemma_radix_values();
            self.lemma_wire_width();
        }
        cursor.write_le(to_twos_complement(*self, 8), 8)
    }
}

impl Deserializable for i64 {
    fn deserialize(cursor: &mut SliceCursor) -> (r: Result<Self, Error>) {
        let image = cursor.read_le(8)?;
        proof {
            lemma_radix_values();
            lemma_image_read(old(cursor)@.ahead().take(8));
        }
        let value = from_twos_complement(image, 8);
        Ok(value)
    }
}

/// 2 to the power 64: what the low half of a 128-bit number is counted in.
const HALF: u128 = 0x1_0000_0000_0000_0000;

/// Writes the sixteen bytes of `image`, least significant first: the low
/// eight and then the high eight. Where fewer than sixteen bytes are left,
/// nothing is written.
fn write_wide(cursor: &mut SliceCursor, image: u128) -> (r: Result<(), Error>)
    requires
        old(cursor).wf(),
    ensures
        final(cursor).wf(),
        final(final(cursor).slice)@ == final(old(cursor).slice)@,
        r is Ok <==> 16 <= old(cursor)@.room(),
        r is Ok ==> final(cursor)@ == old(cursor)@.wrote(le_bytes(image as nat, 16)),
        r matches Err(e) ==> e == Error::BufferOverflow && final(cursor)@ == old(cursor)@,
{
    if cursor.remaining() < 16 {
        return Err(Error::BufferOverflow);
    }
    let low = (image % HALF) as u64;
    let high = (image / HALF) as u64;
    proof {
        lemma_radix_values();
        lemma_le_bytes_split(image as nat, 8, 8);
        lemma_le_bytes_len(low as nat, 8);
        lemma_le_bytes_len(high as nat, 8);
    }
    cursor.write_le(low, 8)?;
    cursor.write_le(high, 8)?;
    assert(cursor@.bytes =~= old(cursor)@.wrote(le_bytes(image as nat, 16)).bytes);
    Ok(())
}

/// Reads sixteen bytes as one number, least significant byte first. Where
/// fewer are left, the cursor stays where it is.
fn read_wide(cursor: &mut SliceCursor) -> (r: Result<u128, Error>)
    requires
        old(cursor).wf(),
    ensures
        final(cursor).wf(),
        final(final(cursor).slice)@ == final(old(cursor).slice)@,
        r is Ok <==> 16 <= old(cursor)@.room(),
        r matches Ok(image) ==> le_bytes(image as nat, 16) == old(cursor)@.ahead().take(16)
            && final(cursor)@ == old(cursor)@.skipped(16),
        r matches Err(e) ==> e == Error::TruncatedInput && final(cursor)@ == old(cursor)@,
{
    if cursor.remaining() < 16 {
        return Err(Error::TruncatedInput);
    }
    let ghost input = cursor@.ahead().take(16);
    let low = cursor.read_le(8)?;
    let high = cursor.read_le(8)?;
    let image = low as u128 + high as u128 * HALF;
    proof {
        lemma_radix_values();
        let first = input.take(8);
        let second = input.skip(8);
        assert(first =~= old(cursor)@.ahead().take(8));
        assert(second =~= old(cursor)@.skipped(8).ahead().take(8));
        lemma_image_read(first);
        lemma_image_read(second);
        lemma_le_bytes_split(image as nat, 8, 8);
        assert(image as nat % radix(8) == low);
        assert(image as nat / radix(8) == high);
        assert(input =~= first + second);
    }
    Ok(image)
}

impl Serializable for u128 {
    open spec fn width() -> nat {
        16
    }

    open spec fn wire(&self) -> Seq<u8> {
        le_bytes(*self as nat, 16)
    }

    proof fn lemma_wire_width(&self) {
        lemma_le_bytes_len(*self as nat, 16);
        assert(self.wire() == le_bytes(*self as nat, 16));
        assert(Self::width() == 16);
    }

    proof fn lemma_wire_injective(&self, other: &Self) {
        lemma_radix_values();
        lemma_le_bytes_injective(*self as nat, *other as nat, 16);
    }

    fn fits_in(room: usize) -> (fits: bool) {
        room >= 16
    }

    fn serialize(&self, cursor: &mut SliceCursor) -> (r: Result<(), Error>) {
        proof {
            self.lemma_wire_width();
        }
        write_wide(cursor, *self)
    }
}

impl Deserializable for u128 {
    fn deserialize(cursor: &mut SliceCursor) -> (r: Result<Self, Error>) {
        read_wide(cursor)
    }
}

impl Serializable for i128 {
    open spec fn width() -> nat {
        16
    }

    open spec fn wire(&self) -> Seq<u8> {
        le_bytes(twos_complement(*self as int, 16), 16)
    }

    proof fn lemma_wire_width(&self) {
        lemma_le_bytes_len(twos_complement(*self as int, 16), 16);
        assert(self.wire() == le_bytes(twos_complement(*self as int, 16), 16));
        assert(Self::width() == 16);
    }

    proof fn lemma_wire_injective(&self, other: &Self) {
        let mine = twos_complement(*self as int, 16);
        let theirs = twos_complement(*other as int, 16);
        lemma_radix_values();
        lemma_le_bytes_injective(mine, theirs, 16);
    }

    fn fits_in(room: usize) -> (fits: bool) {
        room >= 16
    }

    fn serialize(&self, cursor: &mut SliceCursor) -> (r: Result<(), Error>) {
        proof {
            lemma_radix_values();
            self.lemma_wire_width();
        }
        let image = if *self >= 0 {
            *self as u128
        } else {
            u128::MAX - (-(*self + 1)) as u128
        };
        write_wide(cursor, image)
    }
}

impl Deserializable for i128 {
    fn deserialize(cursor: &mut SliceCursor) -> (r: Result<Self, Error>) {
        let image = read_wide(cursor)?;
        proof {
            lemma_radix_values();
        }
        if image <= i128::MAX as u128 {
            Ok(image as i128)
        } else {
            Ok(-((u128::MAX - image) as i128) - 1)
        }
    }
}

} // verus!
