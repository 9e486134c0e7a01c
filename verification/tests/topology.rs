use csv_rs::dcu::{hex_dump_text, num_subdirs, parse_device_id};
use csv_rs::error::Error;

#[test]
fn parse_device_id_reads_a_plain_integer() {
    assert_eq!(parse_device_id(b"123").unwrap(), 123);
    assert_eq!(parse_device_id(b"0").unwrap(), 0);
    assert_eq!(parse_device_id(b"4294967295").unwrap(), u32::MAX);
}

#[test]
fn parse_device_id_trims_surrounding_whitespace() {
    assert_eq!(parse_device_id(b"42\n").unwrap(), 42);
    assert_eq!(parse_device_id(b"  7 \t\r\n").unwrap(), 7);
}

#[test]
fn parse_device_id_rejects_bad_content() {
    assert_eq!(parse_device_id(b"").unwrap_err(), Error::ParseFailure);
    assert_eq!(parse_device_id(b"   \n").unwrap_err(), Error::ParseFailure);
    assert_eq!(parse_device_id(b"abc").unwrap_err(), Error::ParseFailure);
    assert_eq!(parse_device_id(b"12x").unwrap_err(), Error::ParseFailure);
    assert_eq!(parse_device_id(b"-3").unwrap_err(), Error::ParseFailure);
    assert_eq!(parse_device_id(b"1 2").unwrap_err(), Error::ParseFailure);
    assert_eq!(parse_device_id(b"4294967296").unwrap_err(), Error::ParseFailure);
    assert_eq!(
        parse_device_id(b"999999999999999999999").unwrap_err(),
        Error::ParseFailure
    );
}

#[test]
fn num_subdirs_skips_dot_entries_and_honours_the_prefix() {
    let names: Vec<Vec<u8>> = vec![
        b".".to_vec(),
        b"..".to_vec(),
        b"0".to_vec(),
        b"1".to_vec(),
        b"node2".to_vec(),
    ];
    assert_eq!(num_subdirs(&names, b""), 3);
    assert_eq!(num_subdirs(&names, b"node"), 1);
    assert_eq!(num_subdirs(&names, b"gpu"), 0);
    let empty: Vec<Vec<u8>> = Vec::new();
    assert_eq!(num_subdirs(&empty, b""), 0);
}

#[test]
fn hex_dump_uses_sixteen_byte_lines() {
    assert_eq!(hex_dump_text(&[]), b"");
    assert_eq!(hex_dump_text(&[0xab, 0x01]), b"AB 01 \n");
    let sixteen: Vec<u8> = (0u8..16).collect();
    assert_eq!(
        hex_dump_text(&sixteen),
        b"00 01 02 03 04 05 06 07 08 09 0A 0B 0C 0D 0E 0F \n"
    );
    let seventeen: Vec<u8> = (0u8..17).collect();
    assert_eq!(
        hex_dump_text(&seventeen).as_slice(),
        &b"00 01 02 03 04 05 06 07 08 09 0A 0B 0C 0D 0E 0F \n10 \n"[..]
    );
}
