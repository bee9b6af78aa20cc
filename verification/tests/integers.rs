use terraria_protocol::error::Error;
use terraria_protocol::packets::{Vec2, RGB};
use terraria_protocol::serialization::{Deserializable, Serializable, SliceCursor};

fn written<T: Serializable>(value: &T, room: usize) -> (Result<(), Error>, Vec<u8>) {
    let mut buffer = vec![0u8; room];
    let mut cursor = SliceCursor::new(buffer.as_mut_slice());
    let r = value.serialize(&mut cursor);
    let n = cursor.finish();
    buffer.truncate(n);
    (r, buffer)
}

fn read_back<T: Deserializable>(bytes: &[u8]) -> (Result<T, Error>, usize) {
    let mut buffer = bytes.to_vec();
    let mut cursor = SliceCursor::new(buffer.as_mut_slice());
    let r = T::deserialize(&mut cursor);
    (r, cursor.finish())
}

#[test]
fn unsigned_integers_are_little_endian() {
    assert_eq!(written(&0xabu8, 8), (Ok(()), vec![0xab]));
    assert_eq!(written(&0x1234u16, 8), (Ok(()), vec![0x34, 0x12]));
    assert_eq!(written(&0x1234_5678u32, 8), (Ok(()), vec![0x78, 0x56, 0x34, 0x12]));
    assert_eq!(
        written(&0x0102_0304_0506_0708u64, 8),
        (Ok(()), vec![0x08, 0x07, 0x06, 0x05, 0x04, 0x03, 0x02, 0x01])
    );
    assert_eq!(written(&u16::MAX, 8), (Ok(()), vec![0xff, 0xff]));
    assert_eq!(written(&u64::MAX, 8), (Ok(()), vec![0xff; 8]));
    assert_eq!(written(&0u32, 8), (Ok(()), vec![0; 4]));
}

#[test]
fn signed_integers_are_twos_complement() {
    assert_eq!(written(&-1i8, 8), (Ok(()), vec![0xff]));
    assert_eq!(written(&i8::MIN, 8), (Ok(()), vec![0x80]));
    assert_eq!(written(&i8::MAX, 8), (Ok(()), vec![0x7f]));
    assert_eq!(written(&-2i16, 8), (Ok(()), vec![0xfe, 0xff]));
    assert_eq!(written(&i16::MIN, 8), (Ok(()), vec![0x00, 0x80]));
    assert_eq!(written(&0x1234i16, 8), (Ok(()), vec![0x34, 0x12]));
    assert_eq!(written(&-0x1234_5678i32, 8), (Ok(()), vec![0x88, 0xa9, 0xcb, 0xed]));
    assert_eq!(written(&i32::MIN, 8), (Ok(()), vec![0, 0, 0, 0x80]));
    assert_eq!(written(&-1i64, 8), (Ok(()), vec![0xff; 8]));
    assert_eq!(written(&i64::MIN, 8), (Ok(()), vec![0, 0, 0, 0, 0, 0, 0, 0x80]));
    assert_eq!(
        written(&i64::MAX, 8),
        (Ok(()), vec![0xff, 0xff, 0xff, 0xff, 0xff, 0xff, 0xff, 0x7f])
    );
}

#[test]
fn integers_agree_with_the_standard_library() {
    for value in [0u16, 1, 255, 256, 0x8000, u16::MAX] {
        assert_eq!(written(&value, 2).1, value.to_le_bytes().to_vec());
    }
    for value in [0i16, 1, -1, 127, -128, i16::MIN, i16::MAX] {
        assert_eq!(written(&value, 2).1, value.to_le_bytes().to_vec());
    }
    for value in [0i32, 1, -1, 65536, -65536, i32::MIN, i32::MAX] {
        assert_eq!(written(&value, 4).1, value.to_le_bytes().to_vec());
    }
    for value in [0u32, 1, 0xdead_beef, u32::MAX] {
        assert_eq!(written(&value, 4).1, value.to_le_bytes().to_vec());
    }
    for value in [0i64, 1, -1, i64::MIN, i64::MAX, 0x0123_4567_89ab_cdef] {
        assert_eq!(written(&value, 8).1, value.to_le_bytes().to_vec());
    }
    for value in [0u64, 1, u64::MAX, 0xfedc_ba98_7654_3210] {
        assert_eq!(written(&value, 8).1, value.to_le_bytes().to_vec());
    }
    for value in i8::MIN..=i8::MAX {
        assert_eq!(written(&value, 1).1, value.to_le_bytes().to_vec());
    }
}

#[test]
fn wide_integers_are_sixteen_bytes() {
    let value: u128 = 0x100f_0e0d_0c0b_0a09_0807_0605_0403_0201;
    let bytes: Vec<u8> = (1..=16).collect();
    assert_eq!(written(&value, 16), (Ok(()), bytes.clone()));
    assert_eq!(read_back::<u128>(&bytes), (Ok(value), 16));
    assert_eq!(written(&u128::MAX, 16), (Ok(()), vec![0xff; 16]));
    assert_eq!(written(&-1i128, 16), (Ok(()), vec![0xff; 16]));
    assert_eq!(read_back::<i128>(&[0xff; 16]), (Ok(-1), 16));
    let mut lowest = vec![0u8; 16];
    lowest[15] = 0x80;
    assert_eq!(written(&i128::MIN, 16), (Ok(()), lowest.clone()));
    assert_eq!(read_back::<i128>(&lowest), (Ok(i128::MIN), 16));
    for value in [0i128, 1, -1, i128::MIN, i128::MAX, -0x1234_5678_9abc_def0_1234, 1 << 64] {
        let (r, bytes) = written(&value, 16);
        assert_eq!(r, Ok(()));
        assert_eq!(bytes, value.to_le_bytes().to_vec());
        assert_eq!(read_back::<i128>(&bytes), (Ok(value), 16));
    }
    for value in [0u128, 1, u128::MAX, 1 << 64, (1 << 64) - 1, 0xdead_beef << 70] {
        let (r, bytes) = written(&value, 16);
        assert_eq!(r, Ok(()));
        assert_eq!(bytes, value.to_le_bytes().to_vec());
        assert_eq!(read_back::<u128>(&bytes), (Ok(value), 16));
    }
    assert_eq!(written(&value, 15), (Err(Error::BufferOverflow), vec![]));
    assert_eq!(read_back::<u128>(&[1; 15]), (Err(Error::TruncatedInput), 0));
    assert_eq!(read_back::<i128>(&[1; 15]), (Err(Error::TruncatedInput), 0));
}

#[test]
fn integers_are_read_as_they_were_written() {
    assert_eq!(read_back::<u8>(&[0xab, 1]), (Ok(0xab), 1));
    assert_eq!(read_back::<i8>(&[0x80]), (Ok(i8::MIN), 1));
    assert_eq!(read_back::<u16>(&[0x34, 0x12, 9]), (Ok(0x1234), 2));
    assert_eq!(read_back::<i16>(&[0xfe, 0xff]), (Ok(-2), 2));
    assert_eq!(read_back::<i16>(&[0xff, 0x7f]), (Ok(i16::MAX), 2));
    assert_eq!(read_back::<u32>(&[0x78, 0x56, 0x34, 0x12]), (Ok(0x1234_5678), 4));
    assert_eq!(read_back::<i32>(&[0x88, 0xa9, 0xcb, 0xed]), (Ok(-0x1234_5678), 4));
    assert_eq!(read_back::<i32>(&[0, 0, 0, 0x80]), (Ok(i32::MIN), 4));
    assert_eq!(read_back::<u64>(&[0xff; 8]), (Ok(u64::MAX), 8));
    assert_eq!(read_back::<i64>(&[0xff; 8]), (Ok(-1), 8));
    assert_eq!(read_back::<i64>(&[0, 0, 0, 0, 0, 0, 0, 0x80]), (Ok(i64::MIN), 8));
}

#[test]
fn every_sixteen_bit_value_survives_the_round_trip() {
    for value in 0..=u16::MAX {
        let (r, bytes) = written(&value, 2);
        assert_eq!(r, Ok(()));
        assert_eq!(read_back::<u16>(&bytes), (Ok(value), 2));
        let signed = value as i16;
        let (r, bytes) = written(&signed, 2);
        assert_eq!(r, Ok(()));
        assert_eq!(read_back::<i16>(&bytes), (Ok(signed), 2));
    }
}

#[test]
fn an_integer_that_does_not_fit_is_not_written() {
    assert_eq!(written(&1u16, 1), (Err(Error::BufferOverflow), vec![]));
    assert_eq!(written(&1i32, 3), (Err(Error::BufferOverflow), vec![]));
    assert_eq!(written(&1u64, 7), (Err(Error::BufferOverflow), vec![]));
    assert_eq!(written(&1i8, 0), (Err(Error::BufferOverflow), vec![]));
}

#[test]
fn an_integer_cut_short_is_not_read() {
    assert_eq!(read_back::<u16>(&[1]), (Err(Error::TruncatedInput), 0));
    assert_eq!(read_back::<i32>(&[1, 2, 3]), (Err(Error::TruncatedInput), 0));
    assert_eq!(read_back::<i64>(&[1, 2, 3, 4, 5, 6, 7]), (Err(Error::TruncatedInput), 0));
    assert_eq!(read_back::<u8>(&[]), (Err(Error::TruncatedInput), 0));
}

#[test]
fn fits_in_compares_the_width_with_the_room() {
    assert!(u8::fits_in(1));
    assert!(!u8::fits_in(0));
    assert!(i16::fits_in(2));
    assert!(!i16::fits_in(1));
    assert!(u32::fits_in(4));
    assert!(!u32::fits_in(3));
    assert!(i64::fits_in(usize::MAX));
    assert!(!i64::fits_in(7));
    assert!(u128::fits_in(16));
    assert!(!i128::fits_in(15));
    assert!(RGB::fits_in(3));
    assert!(!RGB::fits_in(2));
    assert!(<[u16; 22]>::fits_in(44));
    assert!(!<[u16; 22]>::fits_in(43));
    assert!(<[u64; 0]>::fits_in(0));
    assert!(<[[u32; 3]; 2]>::fits_in(24));
    assert!(!<[[u32; 3]; 2]>::fits_in(23));
}

#[test]
fn an_array_is_its_elements_in_order() {
    let values: [u16; 3] = [0x0102, 0x0304, 0x0506];
    assert_eq!(written(&values, 8), (Ok(()), vec![2, 1, 4, 3, 6, 5]));
    assert_eq!(read_back::<[u16; 3]>(&[2, 1, 4, 3, 6, 5, 9]), (Ok(values), 6));
    let bytes: [u8; 4] = [9, 8, 7, 6];
    assert_eq!(written(&bytes, 4), (Ok(()), vec![9, 8, 7, 6]));
    assert_eq!(read_back::<[u8; 4]>(&[9, 8, 7, 6]), (Ok(bytes), 4));
    let nested: [[i16; 2]; 2] = [[-1, 1], [2, -2]];
    assert_eq!(written(&nested, 8), (Ok(()), vec![0xff, 0xff, 1, 0, 2, 0, 0xfe, 0xff]));
    assert_eq!(read_back::<[[i16; 2]; 2]>(&[0xff, 0xff, 1, 0, 2, 0, 0xfe, 0xff]), (Ok(nested), 8));
    let none: [u32; 0] = [];
    assert_eq!(written(&none, 0), (Ok(()), vec![]));
    assert_eq!(read_back::<[u32; 0]>(&[]), (Ok(none), 0));
}

#[test]
fn an_array_that_does_not_fit_is_not_written_in_part() {
    let values: [u16; 3] = [0x0102, 0x0304, 0x0506];
    let mut buffer = vec![0xaau8; 5];
    let mut cursor = SliceCursor::new(buffer.as_mut_slice());
    assert_eq!(values.serialize(&mut cursor), Err(Error::BufferOverflow));
    assert_eq!(cursor.finish(), 0);
    assert_eq!(buffer, vec![0xaau8; 5]);
    assert_eq!(read_back::<[u16; 3]>(&[2, 1, 4, 3, 6]), (Err(Error::TruncatedInput), 0));
}

#[test]
fn a_colour_is_three_bytes() {
    let black = RGB::new();
    assert_eq!(black, RGB { r: 0, g: 0, b: 0 });
    assert_eq!(written(&black, 3), (Ok(()), vec![0, 0, 0]));
    let colour = RGB { r: 0x11, g: 0x22, b: 0x33 };
    assert_eq!(written(&colour, 4), (Ok(()), vec![0x11, 0x22, 0x33]));
    assert_eq!(read_back::<RGB>(&[0x11, 0x22, 0x33, 0x44]), (Ok(colour), 3));
    assert_eq!(written(&colour, 2), (Err(Error::BufferOverflow), vec![]));
    assert_eq!(read_back::<RGB>(&[0x11, 0x22]), (Err(Error::TruncatedInput), 0));
}

#[test]
fn a_vector_is_two_floats_in_bits() {
    let origin = Vec2::new();
    assert_eq!(origin, Vec2 { x: 0, y: 0 });
    assert_eq!(origin.x, 0.0f32.to_bits());
    assert_eq!(written(&origin, 8), (Ok(()), vec![0; 8]));
    let v = Vec2 { x: 1.5f32.to_bits(), y: (-2.0f32).to_bits() };
    assert_eq!(written(&v, 8), (Ok(()), vec![0, 0, 0xc0, 0x3f, 0, 0, 0, 0xc0]));
    let mut expected = 1.5f32.to_le_bytes().to_vec();
    expected.extend_from_slice(&(-2.0f32).to_le_bytes());
    assert_eq!(written(&v, 8).1, expected);
    assert_eq!(read_back::<Vec2>(&[0, 0, 0xc0, 0x3f, 0, 0, 0, 0xc0, 1]), (Ok(v), 8));
    assert_eq!(written(&v, 7), (Err(Error::BufferOverflow), vec![]));
    assert_eq!(read_back::<Vec2>(&[0; 7]), (Err(Error::TruncatedInput), 0));
}
