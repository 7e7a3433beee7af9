use bitstream_reader::{BitBuffer, BitStream, Endianness, ReadError};

fn stream(bytes: Vec<u8>, endianness: Endianness) -> BitStream {
    BitStream::new(BitBuffer::new(bytes, endianness))
}

fn hello_world_padded() -> Vec<u8> {
    let mut bytes = b"Hello world".to_vec();
    bytes.extend_from_slice(&[0, 0, 0, 0, 0]);
    assert_eq!(bytes.len(), 16);
    bytes
}

#[test]
fn null_terminated_string() {
    let mut s = stream(hello_world_padded(), Endianness::LittleEndian);
    assert_eq!(s.read_string(None), Ok("Hello world".to_string()));
    // 11 bytes of text plus the terminator.
    assert_eq!(s.pos(), 96);
}

#[test]
fn fixed_length_string() {
    let mut s = stream(hello_world_padded(), Endianness::LittleEndian);
    assert_eq!(s.read_string(Some(11)), Ok("Hello world".to_string()));
    assert_eq!(s.pos(), 88);
}

#[test]
fn fixed_length_string_with_null_padding() {
    let mut s = stream(hello_world_padded(), Endianness::LittleEndian);
    assert_eq!(s.read_string(Some(16)), Ok("Hello world".to_string()));
    assert_eq!(s.pos(), 128);
}

#[test]
fn string_reads_big_endian_too() {
    let mut s = stream(hello_world_padded(), Endianness::BigEndian);
    assert_eq!(s.read_string(None), Ok("Hello world".to_string()));
    assert_eq!(s.pos(), 96);
}

#[test]
fn unterminated_string_is_not_enough_data() {
    let mut s = stream(b"Hello".to_vec(), Endianness::LittleEndian);
    assert!(matches!(
        s.read_string(None),
        Err(ReadError::NotEnoughData { .. })
    ));
    // A failed scan consumes nothing.
    assert_eq!(s.pos(), 0);
}

#[test]
fn fixed_length_string_needs_enough_bytes() {
    let mut s = stream(b"Hi".to_vec(), Endianness::LittleEndian);
    assert_eq!(
        s.read_string(Some(3)),
        Err(ReadError::NotEnoughData { requested: 24, available: 16 })
    );
    assert_eq!(s.pos(), 0);
}

#[test]
fn invalid_utf8_advances_past_the_scanned_region() {
    // 0xFF starts no valid UTF-8 sequence; the terminator follows it.
    let mut s = stream(vec![0xFF, 0x00, 0x41, 0x00], Endianness::LittleEndian);
    match s.read_string(None) {
        Err(ReadError::Utf8Error { bytes }) => assert_eq!(bytes, vec![0xFF]),
        other => panic!("expected a utf8 error, got {:?}", other),
    }
    // The cursor moved past the bad region and its terminator, so the next
    // read is correctly positioned.
    assert_eq!(s.pos(), 16);
    assert_eq!(s.read_string(None), Ok("A".to_string()));
    assert_eq!(s.pos(), 32);
}

#[test]
fn invalid_utf8_in_fixed_mode_consumes_the_requested_bytes() {
    let mut s = stream(vec![0x41, 0xFF, 0x42, 0x00], Endianness::LittleEndian);
    match s.read_string(Some(2)) {
        Err(ReadError::Utf8Error { bytes }) => assert_eq!(bytes, vec![0x41, 0xFF]),
        other => panic!("expected a utf8 error, got {:?}", other),
    }
    assert_eq!(s.pos(), 16);
    assert_eq!(s.read_string(None), Ok("B".to_string()));
}

#[test]
fn multibyte_utf8_round_trips() {
    let mut bytes = "héllo wörld ✓".as_bytes().to_vec();
    let text_len = bytes.len();
    bytes.push(0);
    let mut s = stream(bytes, Endianness::LittleEndian);
    assert_eq!(s.read_string(None), Ok("héllo wörld ✓".to_string()));
    assert_eq!(s.pos(), (text_len + 1) * 8);
}

#[test]
fn unaligned_string_read() {
    // Shift "Hi\0" right by one bit under BigEndian: every byte is read
    // across a byte boundary.
    let text = [b'H', b'i', 0u8];
    let mut shifted = Vec::new();
    let mut carry = 0u8;
    for &b in text.iter() {
        shifted.push(carry << 7 | b >> 1);
        carry = b & 1;
    }
    shifted.push(carry << 7);
    let mut s = stream(shifted, Endianness::BigEndian);
    s.skip_bits(1).unwrap();
    assert_eq!(s.read_string(None), Ok("Hi".to_string()));
    assert_eq!(s.pos(), 25);
}

#[test]
fn typed_string_reads() {
    let mut s = stream(hello_world_padded(), Endianness::LittleEndian);
    let text: String = s.read().unwrap();
    assert_eq!(text, "Hello world");
    assert_eq!(s.pos(), 96);

    let mut t = stream(hello_world_padded(), Endianness::LittleEndian);
    let fixed: String = t.read_sized(11).unwrap();
    assert_eq!(fixed, "Hello world");
    assert_eq!(t.pos(), 88);
}

#[test]
fn empty_string_at_terminator() {
    let mut s = stream(vec![0x00, 0x41], Endianness::LittleEndian);
    assert_eq!(s.read_string(None), Ok(String::new()));
    assert_eq!(s.pos(), 8);
}

#[test]
fn buffer_string_reads_are_stateless() {
    let buffer = BitBuffer::new(hello_world_padded(), Endianness::LittleEndian);
    assert_eq!(buffer.read_string(0, None), Ok("Hello world".to_string()));
    assert_eq!(buffer.read_string(0, Some(5)), Ok("Hello".to_string()));
    assert_eq!(
        buffer.read_string(8, None),
        Ok("ello world".to_string())
    );
}
