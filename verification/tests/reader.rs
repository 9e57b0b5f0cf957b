use tos_parser::bytes::Float32;
use tos_parser::error::{FormatError, ParseError};
use tos_parser::reader::Reader;
use tos_parser::xac::xac_parser::xac_read_string;
use tos_parser::xsm::xsm_parser::xsm_read_string;

fn truncated(offset: usize, needed: u64, available: u64) -> ParseError {
    ParseError { kind: FormatError::TruncatedData { needed, available }, offset, chunk_type: None }
}

#[test]
fn string_of_length_zero_is_empty_and_takes_four_bytes() {
    let data = [0u8, 0, 0, 0, 9];
    let mut r = Reader::new(&data);
    let s = r.read_string().unwrap();
    assert_eq!(s, "");
    assert_eq!(r.position(), 4);
}

#[test]
fn string_of_length_zero_reads_the_same_again() {
    let data = [0u8, 0, 0, 0, 0, 0, 0, 0];
    let mut r = Reader::new(&data);
    assert_eq!(r.read_string().unwrap(), "");
    assert_eq!(r.read_string().unwrap(), "");
    assert_eq!(r.position(), 8);
}

#[test]
fn string_of_n_bytes_takes_four_plus_n() {
    let data = [6u8, 0, 0, 0, b'3', b'd', b's', b'M', b'a', b'x', 0xff];
    let mut r = Reader::new(&data);
    let s = xac_read_string(&mut r).unwrap();
    assert_eq!(s, "3dsMax");
    assert_eq!(r.position(), 10);
}

#[test]
fn string_takes_each_byte_as_one_character() {
    let data = [2u8, 0, 0, 0, 0xe9, 0x41];
    let mut r = Reader::new(&data);
    let s = xsm_read_string(&mut r).unwrap();
    assert_eq!(s.chars().collect::<Vec<char>>(), vec!['\u{e9}', 'A']);
    assert_eq!(r.position(), 6);
}

#[test]
fn string_of_negative_length_is_empty() {
    let data = [0xffu8, 0xff, 0xff, 0xff, b'a'];
    let mut r = Reader::new(&data);
    assert_eq!(r.read_string().unwrap(), "");
    assert_eq!(r.position(), 4);
}

#[test]
fn string_without_its_length_is_truncated() {
    let data = [1u8, 0, 0];
    let mut r = Reader::new(&data);
    assert_eq!(r.read_string(), Err(truncated(0, 4, 3)));
}

#[test]
fn string_without_its_bytes_is_truncated() {
    let data = [5u8, 0, 0, 0, b'a', b'b'];
    let mut r = Reader::new(&data);
    assert_eq!(r.read_string(), Err(truncated(4, 5, 2)));
}

#[test]
fn integers_are_little_endian() {
    let data = [0x78u8, 0x56, 0x34, 0x12, 0xfe, 0xff, 0xff, 0xff, 0x00, 0x80, 0x2a];
    let mut r = Reader::new(&data);
    assert_eq!(r.read_u32(), Ok(0x1234_5678));
    assert_eq!(r.read_i32(), Ok(-2));
    assert_eq!(r.read_i16(), Ok(-32768));
    assert_eq!(r.read_u8(), Ok(42));
    assert_eq!(r.position(), 11);
    assert_eq!(r.remaining(), 0);
    assert!(r.at_end());
}

#[test]
fn unsigned_word_above_the_signed_range() {
    let data = [0xffu8, 0xff, 0xff, 0xff, 0xff, 0xff, 0xff, 0x7f];
    let mut r = Reader::new(&data);
    assert_eq!(r.read_u32(), Ok(u32::MAX));
    assert_eq!(r.read_i32(), Ok(i32::MAX));
}

#[test]
fn float_keeps_its_bits() {
    let data = 1.5f32.to_le_bytes();
    let mut r = Reader::new(&data);
    let v = r.read_float().unwrap();
    assert_eq!(v, Float32 { bits: 0x3fc0_0000 });
    assert_eq!(f32::from_bits(v.bits), 1.5);
}

#[test]
fn failed_read_leaves_the_cursor() {
    let data = [1u8, 2, 3];
    let mut r = Reader::new(&data);
    assert_eq!(r.read_u8(), Ok(1));
    assert_eq!(r.read_i32(), Err(truncated(1, 4, 2)));
    assert_eq!(r.read_i16(), Ok(0x0302));
    assert_eq!(r.read_i16(), Err(truncated(3, 2, 0)));
    assert_eq!(r.read_u8(), Err(truncated(3, 1, 0)));
    assert_eq!(r.position(), 3);
}

#[test]
fn skip_and_seek_stay_within_the_stream() {
    let data = [0u8; 10];
    let mut r = Reader::new(&data);
    assert_eq!(r.len(), 10);
    assert_eq!(r.skip(4), Ok(()));
    assert_eq!(r.skip(7), Err(truncated(4, 7, 6)));
    assert_eq!(r.position(), 4);
    assert_eq!(r.need(6), Ok(()));
    assert_eq!(r.need(7), Err(truncated(4, 7, 6)));
    assert!(r.seek(10));
    assert_eq!(r.position(), 10);
    assert!(!r.seek(11));
    assert_eq!(r.position(), 10);
    assert!(r.seek(2));
    assert_eq!(r.position(), 2);
}

#[test]
fn error_within_chunk_keeps_kind_and_offset() {
    let e = truncated(7, 4, 1).within_chunk(11);
    assert_eq!(
        e,
        ParseError {
            kind: FormatError::TruncatedData { needed: 4, available: 1 },
            offset: 7,
            chunk_type: Some(11),
        }
    );
}
