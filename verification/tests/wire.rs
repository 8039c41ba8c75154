//! Strings and numbers on the wire.

use luanti_proto_bot::network::wire::{
    read_bytes_slice, read_f32_slice, read_i16_slice, read_string_slice, read_u16, read_u32,
    read_u8, read_v3f32_slice, read_v3s16_slice, read_wstring_slice, write_bytes, write_f32,
    write_i16, write_s32, write_string, write_u16, write_u32, write_v3s16, write_wstring,
};
use luanti_proto_bot::types::BlockPos;

#[test]
fn strings_round_trip_without_losing_unicode() {
    let value = "hello \u{1f980} \u{e9}";
    let mut bytes = Vec::new();
    write_string(&mut bytes, value);
    let mut offset = 0;
    assert_eq!(read_string_slice(&bytes, &mut offset).unwrap(), value);
    assert_eq!(offset, bytes.len());

    bytes.clear();
    write_wstring(&mut bytes, value);
    offset = 0;
    assert_eq!(read_wstring_slice(&bytes, &mut offset).unwrap(), value);
    assert_eq!(offset, bytes.len());
}

#[test]
fn string_writers_truncate_only_at_character_boundaries() {
    let prefix = "a".repeat(u16::MAX as usize - 1);
    let value = format!("{prefix}\u{1f980}");
    let mut bytes = Vec::new();
    write_string(&mut bytes, &value);
    assert_eq!(read_string_slice(&bytes, &mut 0).unwrap(), prefix);

    bytes.clear();
    write_wstring(&mut bytes, &value);
    assert_eq!(read_wstring_slice(&bytes, &mut 0).unwrap(), prefix);
}

#[test]
fn string_readers_reject_invalid_encodings_and_truncated_payloads() {
    assert!(read_string_slice(&[0, 1, 0xff], &mut 0).is_err());
    assert!(read_string_slice(&[0, 2, b'a'], &mut 0).is_err());
    assert!(read_wstring_slice(&[0, 1, 0xd8, 0x00], &mut 0).is_err());
    assert!(read_wstring_slice(&[0, 1, 0], &mut 0).is_err());
}

#[test]
fn numbers_are_written_big_endian() {
    let mut bytes = Vec::new();
    write_u16(&mut bytes, 0x0102);
    write_u32(&mut bytes, 0x0304_0506);
    write_s32(&mut bytes, -2);
    write_i16(&mut bytes, -3);
    write_f32(&mut bytes, 1.5_f32.to_bits());
    write_v3s16(&mut bytes, BlockPos { x: 1, y: -1, z: 256 });
    assert_eq!(
        bytes,
        [
            1, 2, 3, 4, 5, 6, 0xff, 0xff, 0xff, 0xfe, 0xff, 0xfd, 0x3f, 0xc0, 0, 0, 0, 1, 0xff,
            0xff, 1, 0
        ]
    );
}

#[test]
fn numbers_are_read_back() {
    let bytes = [
        7, 1, 2, 3, 4, 5, 6, 0xff, 0xfd, 0x3f, 0xc0, 0, 0, 0, 1, 0xff, 0xff, 1, 0,
    ];
    let mut offset = 0;
    assert_eq!(read_u8(&bytes, &mut offset).unwrap(), 7);
    assert_eq!(read_u16(&bytes, &mut offset).unwrap(), 0x0102);
    assert_eq!(read_u32(&bytes, &mut offset).unwrap(), 0x0304_0506);
    assert_eq!(read_i16_slice(&bytes, &mut offset).unwrap(), -3);
    assert_eq!(read_f32_slice(&bytes, &mut offset).unwrap(), 1.5_f32.to_bits());
    assert_eq!(
        read_v3s16_slice(&bytes, &mut offset).unwrap(),
        BlockPos { x: 1, y: -1, z: 256 }
    );
    assert_eq!(offset, bytes.len());
    assert!(read_u8(&bytes, &mut offset).is_err());
    assert!(read_v3f32_slice(&bytes, &mut 9).is_err());
}

#[test]
fn bytes_come_back_behind_their_length() {
    let mut bytes = Vec::new();
    write_bytes(&mut bytes, &[9, 8, 7]);
    assert_eq!(bytes, [0, 3, 9, 8, 7]);
    let mut offset = 0;
    assert_eq!(read_bytes_slice(&bytes, &mut offset).unwrap(), [9, 8, 7]);
    assert_eq!(offset, 5);
    assert!(read_bytes_slice(&[0, 2, 1], &mut 0).is_err());
}

#[test]
fn readers_stop_behind_what_is_complete() {
    let stops = |len: usize| {
        let mut offset = 0;
        assert!(read_v3s16_slice(&vec![1; len], &mut offset).is_err());
        offset
    };
    assert_eq!((0..6).map(stops).collect::<Vec<_>>(), [0, 0, 2, 2, 4, 4]);
    let stops = |len: usize| {
        let mut offset = 0;
        assert!(read_v3f32_slice(&vec![1; len], &mut offset).is_err());
        offset
    };
    assert_eq!([0, 3, 4, 7, 8, 11].map(stops), [0, 0, 4, 4, 8, 8]);
}
