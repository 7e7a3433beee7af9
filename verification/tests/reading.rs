use bitstream_reader::{BitBuffer, BitStream, Endianness, ReadError};

fn stream(bytes: Vec<u8>, endianness: Endianness) -> BitStream {
    BitStream::new(BitBuffer::new(bytes, endianness))
}

const EIGHT: [u8; 8] = [
    0b1011_0101,
    0b0110_1010,
    0b1010_1100,
    0b1001_1001,
    0b1001_1001,
    0b1001_1001,
    0b1001_1001,
    0b1110_0111,
];

#[test]
fn too_many_bits_for_u16() {
    let mut s = stream(EIGHT.to_vec(), Endianness::LittleEndian);
    let r = s.read_int::<u16>(17);
    assert_eq!(r, Err(ReadError::TooManyBits { requested: 17, max: 16 }));
    assert_eq!(s.pos(), 0);
}

#[test]
fn one_bit_too_many_is_not_enough_data() {
    let mut s = stream(vec![0xFF], Endianness::BigEndian);
    assert_eq!(s.read_int::<u8>(3), Ok(0b111));
    assert_eq!(s.pos(), 3);
    // 5 bits remain; asking for 6 fails and leaves the position alone.
    let r = s.read_int::<u8>(6);
    assert_eq!(r, Err(ReadError::NotEnoughData { requested: 6, available: 5 }));
    assert_eq!(s.pos(), 3);
    assert_eq!(s.bits_left(), 5);
}

#[test]
fn set_pos_bounds() {
    let mut s = stream(EIGHT.to_vec(), Endianness::LittleEndian);
    let len = s.bit_len();
    assert_eq!(len, 64);
    assert_eq!(s.set_pos(len), Ok(()));
    assert_eq!(s.bits_left(), 0);
    assert_eq!(
        s.set_pos(len + 1),
        Err(ReadError::IndexOutOfBounds { pos: 65, size: 64 })
    );
    assert_eq!(s.pos(), 64);
}

#[test]
fn sixteen_bits_little_endian() {
    let mut s = stream(vec![0b1011_0101, 0b0110_1010], Endianness::LittleEndian);
    assert_eq!(s.read_int::<u16>(16), Ok(0x6AB5));
    assert_eq!(s.pos(), 16);
}

#[test]
fn sixteen_bits_big_endian() {
    let mut s = stream(vec![0b1011_0101, 0b0110_1010], Endianness::BigEndian);
    assert_eq!(s.read_int::<u16>(16), Ok(0xB56A));
    assert_eq!(s.pos(), 16);
}

#[test]
fn two_bools_msb_first() {
    let mut s = stream(vec![0b1011_0101], Endianness::BigEndian);
    assert_eq!(s.read_bool(), Ok(true));
    assert_eq!(s.read_bool(), Ok(false));
    assert_eq!(s.pos(), 2);
}

#[test]
fn two_bools_lsb_first() {
    let mut s = stream(vec![0b1011_0101], Endianness::LittleEndian);
    assert_eq!(s.read_bool(), Ok(true));
    assert_eq!(s.read_bool(), Ok(false));
    assert_eq!(s.pos(), 2);
}

#[test]
fn three_bit_chunks_little_endian() {
    let mut s = stream(EIGHT.to_vec(), Endianness::LittleEndian);
    assert_eq!(s.read_int::<u16>(3), Ok(0b101));
    assert_eq!(s.read_int::<u16>(3), Ok(0b110));
    assert_eq!(s.pos(), 6);
}

#[test]
fn read_bytes_aligned() {
    let mut s = stream(EIGHT.to_vec(), Endianness::LittleEndian);
    assert_eq!(
        s.read_bytes(3),
        Ok(vec![0b1011_0101, 0b0110_1010, 0b1010_1100])
    );
    assert_eq!(s.pos(), 24);
}

#[test]
fn read_bytes_unaligned() {
    let mut s = stream(vec![0b1011_0101, 0b0110_1010], Endianness::BigEndian);
    s.skip_bits(4).unwrap();
    // Bits 4..12, most-significant-first: 0101 0110.
    assert_eq!(s.read_bytes(1), Ok(vec![0x56]));
    assert_eq!(s.pos(), 12);

    let mut t = stream(vec![0b1011_0101, 0b0110_1010], Endianness::LittleEndian);
    t.skip_bits(4).unwrap();
    // Bits 4..12 of the little-endian value 0x6AB5: 0xAB.
    assert_eq!(t.read_bytes(1), Ok(vec![0xAB]));
    assert_eq!(t.pos(), 12);
}

#[test]
fn forking_keeps_parent_reads_identical() {
    let mut forked = stream(EIGHT.to_vec(), Endianness::LittleEndian);
    let mut control = stream(EIGHT.to_vec(), Endianness::LittleEndian);

    let mut bits = forked.read_bits(3).unwrap();
    assert_eq!(forked.pos(), 3);
    assert_eq!(bits.pos(), 0);
    assert_eq!(bits.bit_len(), 3);

    // The control stream reads the same 3 bits directly and discards them.
    let discarded = control.read_int::<u8>(3).unwrap();
    assert_eq!(discarded, 0b101);

    // From here on the parent and the control stream see the same data.
    assert_eq!(forked.read_int::<u8>(3), control.read_int::<u8>(3));
    assert_eq!(forked.read_int::<u16>(13), control.read_int::<u16>(13));
    assert_eq!(forked.pos(), control.pos());

    // The sub-stream sees exactly the forked bits, and nothing more.
    assert_eq!(bits.read_int::<u8>(3), Ok(0b101));
    assert!(bits.read_int::<u8>(1).is_err());
}

#[test]
fn sub_stream_cursor_is_independent() {
    let mut s = stream(EIGHT.to_vec(), Endianness::LittleEndian);
    let mut bits = s.read_bits(3).unwrap();
    assert_eq!(s.read_int::<u8>(3), Ok(0b110));
    assert_eq!(bits.read_int::<u8>(3), Ok(0b101));
    assert!(bits.read_int::<u8>(1).is_err());
}

#[test]
fn clone_forks_the_remainder() {
    let mut s = stream(EIGHT.to_vec(), Endianness::LittleEndian);
    s.read_int::<u16>(10).unwrap();
    let before = s.pos();
    let mut c = s.clone();
    assert_eq!(c.pos(), 0);
    assert_eq!(c.bit_len(), s.bit_len() - 10);

    // Reads on the clone do not move the original, and vice versa.
    c.read_int::<u8>(5).unwrap();
    assert_eq!(s.pos(), before);
    s.read_int::<u8>(7).unwrap();
    assert_eq!(c.pos(), 5);

    // The clone starts exactly at the bits the original had left.
    let mut s2 = stream(EIGHT.to_vec(), Endianness::LittleEndian);
    s2.read_int::<u16>(10).unwrap();
    let mut c2 = s2.clone();
    assert_eq!(c2.read_int::<u16>(16), s2.read_int::<u16>(16));
}

#[test]
fn skip_bits_is_lazy() {
    let mut s = stream(vec![0xAA], Endianness::BigEndian);
    assert_eq!(s.skip_bits(3), Ok(()));
    assert_eq!(s.pos(), 3);
    assert_eq!(s.read_int::<u8>(3), Ok(0b010));
    // A skip past the end is not an error by itself...
    assert_eq!(s.skip_bits(100), Ok(()));
    assert_eq!(s.bits_left(), 0);
    // ...only the next read is.
    assert!(matches!(
        s.read_bool(),
        Err(ReadError::NotEnoughData { .. })
    ));
}

#[test]
fn signed_reads_sign_extend() {
    // Big-endian nibbles: 0xF7 = 1111 0111.
    let mut s = stream(vec![0xF7], Endianness::BigEndian);
    assert_eq!(s.read_int::<i8>(4), Ok(-1));
    assert_eq!(s.read_int::<i8>(4), Ok(7));

    let mut t = stream(vec![0xFF, 0xFE], Endianness::BigEndian);
    assert_eq!(t.read_int::<i16>(16), Ok(-2));

    let mut u = stream(vec![0x80, 0x00], Endianness::BigEndian);
    assert_eq!(u.read_int::<i16>(16), Ok(i16::MIN));
}

#[test]
fn widest_types_round_trip() {
    let bytes: Vec<u8> = (1..=16).collect();
    let mut s = stream(bytes.clone(), Endianness::BigEndian);
    let expected = u128::from_be_bytes([
        1, 2, 3, 4, 5, 6, 7, 8, 9, 10, 11, 12, 13, 14, 15, 16,
    ]);
    assert_eq!(s.read_int::<u128>(128), Ok(expected));

    let mut t = stream(bytes, Endianness::LittleEndian);
    let expected_le = u128::from_le_bytes([
        1, 2, 3, 4, 5, 6, 7, 8, 9, 10, 11, 12, 13, 14, 15, 16,
    ]);
    assert_eq!(t.read_int::<u128>(128), Ok(expected_le));
}

#[test]
fn zero_width_reads_succeed() {
    let mut s = stream(vec![], Endianness::LittleEndian);
    assert_eq!(s.bit_len(), 0);
    assert_eq!(s.read_int::<u8>(0), Ok(0));
    assert_eq!(s.read_bytes(0), Ok(vec![]));
    assert!(matches!(
        s.read_bool(),
        Err(ReadError::NotEnoughData { requested: 1, available: 0 })
    ));
}

#[test]
fn unchecked_reads_match_checked() {
    let mut a = stream(EIGHT.to_vec(), Endianness::LittleEndian);
    let mut b = stream(EIGHT.to_vec(), Endianness::LittleEndian);
    let checked: u16 = a.read_int(11).unwrap();
    let unchecked: u16 = b.read_int_unchecked(11);
    assert_eq!(checked, unchecked);
    assert_eq!(a.pos(), b.pos());

    let checked_bytes = a.read_bytes(2).unwrap();
    let unchecked_bytes = b.read_bytes_unchecked(2);
    assert_eq!(checked_bytes, unchecked_bytes);
}

#[test]
fn typed_reads_dispatch() {
    let mut s = stream(EIGHT.to_vec(), Endianness::LittleEndian);
    let int: u8 = s.read().unwrap();
    assert_eq!(int, 0b1011_0101);
    let boolean: bool = s.read().unwrap();
    assert_eq!(boolean, false);
}

#[test]
fn sized_reads_dispatch() {
    let mut s = stream(EIGHT.to_vec(), Endianness::LittleEndian);
    let int: u8 = s.read_sized(7).unwrap();
    assert_eq!(int, 0b011_0101);
    let mut t = stream(EIGHT.to_vec(), Endianness::LittleEndian);
    let wide: u64 = t.read_sized(40).unwrap();
    assert_eq!(wide, 0x99_99AC_6AB5);
}

#[test]
fn buffer_reads_are_stateless() {
    let buffer = BitBuffer::new(vec![0b1011_0101, 0b0110_1010], Endianness::BigEndian);
    assert_eq!(buffer.bit_len(), 16);
    assert_eq!(buffer.read_bool(0), Ok(true));
    assert_eq!(buffer.read_bool(0), Ok(true));
    assert_eq!(buffer.read_int::<u8>(4, 4), Ok(0b0101));
    assert_eq!(buffer.read_int::<u8>(4, 4), Ok(0b0101));
    assert_eq!(
        buffer.read_bool(16),
        Err(ReadError::NotEnoughData { requested: 1, available: 0 })
    );
}

#[test]
fn cross_byte_unaligned_reads() {
    // Reading 16 bits starting at bit 6 spans three bytes.
    let mut le = stream(
        vec![0b1011_0101, 0b0110_1010, 0b1010_1100],
        Endianness::LittleEndian,
    );
    le.skip_bits(6).unwrap();
    // Bits 6..22 of the little-endian value 0xAC6AB5.
    assert_eq!(le.read_int::<u16>(16), Ok(0xB1AA));

    let mut be = stream(
        vec![0b1011_0101, 0b0110_1010, 0b1010_1100],
        Endianness::BigEndian,
    );
    be.skip_bits(6).unwrap();
    // Bits 6..22, most-significant-first: 01 0110_1010 1010_11.
    assert_eq!(be.read_int::<u16>(16), Ok(0x5AAB));
}

#[test]
fn all_ones_is_minus_one_at_any_width() {
    let mut s = stream(vec![0xFF; 16], Endianness::BigEndian);
    assert_eq!(s.read_int::<i128>(128), Ok(-1));

    let mut t = stream(vec![0xFF; 16], Endianness::LittleEndian);
    assert_eq!(t.read_int::<i64>(37), Ok(-1));
    assert_eq!(t.read_int::<i8>(3), Ok(-1));
}

#[test]
fn error_kind_names() {
    assert_eq!(
        ReadError::NotEnoughData { requested: 1, available: 0 }.kind_name(),
        "not enough data"
    );
    assert_eq!(
        ReadError::TooManyBits { requested: 17, max: 16 }.kind_name(),
        "too many bits"
    );
    assert_eq!(
        ReadError::IndexOutOfBounds { pos: 9, size: 8 }.kind_name(),
        "index out of bounds"
    );
    assert_eq!(
        ReadError::Utf8Error { bytes: vec![0xFF] }.kind_name(),
        "utf8 error"
    );
}

#[test]
fn sub_buffer_truncates() {
    let buffer = BitBuffer::new(vec![0xFF, 0xFF], Endianness::BigEndian);
    let sub = buffer.get_sub_buffer(5).unwrap();
    assert_eq!(sub.bit_len(), 5);
    assert_eq!(sub.read_int::<u8>(0, 5), Ok(0b11111));
    assert!(matches!(
        sub.read_int::<u8>(0, 6),
        Err(ReadError::NotEnoughData { requested: 6, available: 5 })
    ));
    assert!(matches!(
        buffer.get_sub_buffer(17),
        Err(ReadError::NotEnoughData { requested: 17, available: 16 })
    ));
}
