use elm_pair::bytes::{read_string, read_u16, read_u32, read_u8, skip, write_u32, write_u8, ByteReader};
use elm_pair::editors::{read_editor_kind, Buffer, Id, Kind, RefactorAllowed};
use elm_pair::msgpack::{marker_from_u8, read_int};
use elm_pair::msgpack::Marker;
use elm_pair::neovim::{
    nvim_buf_attach, parse_msg, read_lines, skip_objects, write_refactor as neovim_write_refactor,
    write_str, Notification,
};
use elm_pair::source_code::{Edit, InputEdit, Point};
use elm_pair::vscode::{
    parse_file_changed_msg, parse_new_file_msg, write_open_files, write_path,
    write_refactor as vscode_write_refactor,
};

#[test]
fn u32_round_trips_big_endian() {
    let mut out = Vec::new();
    write_u32(&mut out, 0x01020304).unwrap();
    assert_eq!(out, vec![1, 2, 3, 4]);
    write_u8(&mut out, 9).unwrap();
    let mut read = ByteReader::new(out);
    assert_eq!(read_u32(&mut read).unwrap(), 0x01020304);
    assert_eq!(read_u8(&mut read).unwrap(), 9);
    assert!(read_u8(&mut read).is_err());
}

#[test]
fn reads_fail_without_enough_bytes_and_read_nothing() {
    let mut read = ByteReader::new(vec![1, 2, 3]);
    assert!(read_u32(&mut read).is_err());
    assert_eq!(read.remaining(), 3);
    assert_eq!(read_u16(&mut read).unwrap(), 0x0102);
    assert!(read_string(&mut read, 2).is_err());
    assert_eq!(read.remaining(), 1);
}

#[test]
fn strings_must_be_utf8() {
    let mut read = ByteReader::new(vec![b'h', b'i', 0xff, 0xfe]);
    assert_eq!(read_string(&mut read, 2).unwrap(), "hi");
    assert!(read_string(&mut read, 2).unwrap_err().0.contains("utf8"));
}

#[test]
fn skip_stops_at_the_end() {
    let mut read = ByteReader::new(vec![1, 2, 3]);
    skip(&mut read, 10).unwrap();
    assert_eq!(read.remaining(), 0);
}

#[test]
fn editors_are_recognized_by_their_greeting() {
    assert!(matches!(read_editor_kind(&[147, 2, 160, 144]), Ok(Kind::Neovim)));
    assert!(matches!(read_editor_kind(&[0, 0, 0, 0]), Ok(Kind::VsCode)));
    let err = read_editor_kind(&[1, 2, 3, 4]).unwrap_err();
    assert!(err.0.contains("unknown editor identifier"));
}

fn sample_edit(buffer: Buffer) -> Edit {
    Edit {
        buffer,
        input_edit: InputEdit {
            start_byte: 0,
            old_end_byte: 1,
            new_end_byte: 2,
            start_position: Point { row: 1, column: 2 },
            old_end_position: Point { row: 3, column: 4 },
            new_end_position: Point { row: 5, column: 6 },
        },
        new_bytes: "ab".to_string(),
    }
}

#[test]
fn vscode_paths_are_length_prefixed() {
    let mut out = Vec::new();
    write_path(&mut out, "/a.elm").unwrap();
    assert_eq!(out, vec![0, 0, 0, 6, b'/', b'a', b'.', b'e', b'l', b'm']);
}

#[test]
fn vscode_open_files_command() {
    let mut out = Vec::new();
    write_open_files(&mut out, &vec!["x".to_string(), "yz".to_string()]).unwrap();
    assert_eq!(out, vec![1, 0, 0, 0, 2, 0, 0, 0, 1, b'x', 0, 0, 0, 2, b'y', b'z']);
}

#[test]
fn vscode_refactor_command() {
    let buffer = Buffer { editor_id: Id::new(0), buffer_id: 7 };
    let mut out = Vec::new();
    vscode_write_refactor(&mut out, &vec![(buffer, "f".to_string())], &vec![sample_edit(buffer)])
        .unwrap();
    assert_eq!(
        out,
        vec![
            0, 0, 0, 0, 1, // command, one edit
            0, 0, 0, 1, b'f', // path
            0, 0, 0, 1, 0, 0, 0, 2, 0, 0, 0, 3, 0, 0, 0, 4, // positions
            0, 0, 0, 2, b'a', b'b', // new text
        ]
    );
}

#[test]
fn vscode_messages_are_parsed() {
    let mut read = ByteReader::new(vec![0, 0, 0, 1, b'p', 0, 0, 0, 2, b'x', b'y']);
    let new_file = parse_new_file_msg(&mut read).unwrap();
    assert_eq!(new_file.path, "p");
    assert_eq!(new_file.code, "xy");

    let mut read = ByteReader::new(vec![
        1, 0, 0, 0, 1, 0, 0, 0, 2, 0, 0, 0, 3, 0, 0, 0, 4, 0, 0, 0, 1, b'z',
    ]);
    let change = parse_file_changed_msg(&mut read).unwrap();
    assert_eq!(change.refactor_allowed, RefactorAllowed::Yes);
    assert_eq!((change.start_line, change.start_char, change.end_line, change.end_char), (1, 2, 3, 4));
    assert_eq!(change.new_code, "z");

    let mut truncated = ByteReader::new(vec![0, 0, 0, 5, b'p']);
    assert!(parse_new_file_msg(&mut truncated).is_err());
}

#[test]
fn msgpack_markers() {
    assert_eq!(marker_from_u8(0x05), Marker::FixPos(5));
    assert_eq!(marker_from_u8(0x93), Marker::FixArray(3));
    assert_eq!(marker_from_u8(0xa4), Marker::FixStr(4));
    assert_eq!(marker_from_u8(0xce), Marker::U32);
    assert_eq!(marker_from_u8(0xff), Marker::FixNeg(-1));
    assert_eq!(marker_from_u8(0xc1), Marker::Reserved);
}

#[test]
fn msgpack_values_are_skipped_with_their_contents() {
    // [1, "ab", {3: 4}] followed by a trailing byte.
    let bytes = vec![0x93, 0x01, 0xa2, b'a', b'b', 0x81, 0x03, 0x04, 0x42];
    let mut read = ByteReader::new(bytes);
    skip_objects(&mut read, 1).unwrap();
    assert_eq!(read_u8(&mut read).unwrap(), 0x42);

    let mut short = ByteReader::new(vec![0x92, 0x01]);
    assert!(skip_objects(&mut short, 1).is_err());
}

#[test]
fn neovim_strings_and_commands() {
    let mut out = Vec::new();
    write_str(&mut out, "hi").unwrap();
    assert_eq!(out, vec![0xa2, b'h', b'i']);

    let mut attach = Vec::new();
    nvim_buf_attach(&mut attach, 5).unwrap();
    let mut expected = vec![0x93, 0xd0, 2, 0xaf];
    expected.extend_from_slice(b"nvim_buf_attach");
    expected.extend_from_slice(&[0x93, 0xce, 0, 0, 0, 5, 0xc3, 0x80]);
    assert_eq!(attach, expected);
}

#[test]
fn neovim_refactor_splits_new_text_into_lines() {
    let buffer = Buffer { editor_id: Id::new(0), buffer_id: 1 };
    let mut edit = sample_edit(buffer);
    edit.new_bytes = "a\nb\n".to_string();
    let mut out = Vec::new();
    neovim_write_refactor(&mut out, &vec![edit]).unwrap();
    let mut expected = vec![0x93, 0xd0, 2, 0xb0];
    expected.extend_from_slice(b"nvim_call_atomic");
    expected.extend_from_slice(&[0x91, 0x91, 0x92, 0xb1]);
    expected.extend_from_slice(b"nvim_buf_set_text");
    expected.extend_from_slice(&[0x96, 0xce, 0, 0, 0, 1]);
    for n in [1u8, 2, 3, 4] {
        expected.extend_from_slice(&[0xcf, 0, 0, 0, 0, 0, 0, 0, n]);
    }
    expected.extend_from_slice(&[0x93, 0xa1, b'a', 0xa1, b'b', 0xa0]);
    assert_eq!(out, expected);
}

fn msgpack_str(out: &mut Vec<u8>, s: &str) {
    out.push(0xa0 | s.len() as u8);
    out.extend_from_slice(s.as_bytes());
}

#[test]
fn neovim_buffer_opened_notification() {
    let mut bytes = vec![0x93, 0x02];
    msgpack_str(&mut bytes, "buffer_opened");
    bytes.extend_from_slice(&[0x92, 0x05]);
    msgpack_str(&mut bytes, "/x.elm");
    let mut read = ByteReader::new(bytes);
    let msg = parse_msg(&mut read, 9).unwrap().unwrap();
    assert_eq!(
        msg,
        Notification::BufferOpened {
            buffer: Buffer { editor_id: Id::new(9), buffer_id: 5 },
            path: "/x.elm".to_string()
        }
    );
    assert_eq!(read.remaining(), 0);
    assert!(parse_msg(&mut read, 9).unwrap().is_none());
}

#[test]
fn neovim_lines_event_and_its_lines() {
    let mut bytes = vec![0x93, 0x02];
    msgpack_str(&mut bytes, "nvim_buf_lines_event");
    bytes.extend_from_slice(&[0x96, 0xd4, 0x00, 0x07, 0x01, 0x00, 0xff]);
    bytes.extend_from_slice(&[0x92, 0xa1, b'a', 0xa0, 0xc2]);
    let mut read = ByteReader::new(bytes);
    let msg = parse_msg(&mut read, 1).unwrap().unwrap();
    assert_eq!(
        msg,
        Notification::BufLines {
            buffer: Buffer { editor_id: Id::new(1), buffer_id: 7 },
            firstline: 0,
            lastline: -1,
            remaining: 1
        }
    );
    assert_eq!(read_lines(&mut read).unwrap(), vec!["a".to_string(), String::new()]);
    skip_objects(&mut read, 1).unwrap();
    assert_eq!(read.remaining(), 0);
}

#[test]
fn neovim_error_events_and_unknown_messages_are_errors() {
    let mut bytes = vec![0x93, 0x02];
    msgpack_str(&mut bytes, "nvim_error_event");
    bytes.extend_from_slice(&[0x92, 0x01]);
    msgpack_str(&mut bytes, "oops");
    let err = parse_msg(&mut ByteReader::new(bytes), 1).unwrap_err();
    assert!(err.0.contains("received error from neovim: oops"));

    let mut unknown = vec![0x93, 0x02];
    msgpack_str(&mut unknown, "something_else");
    unknown.push(0x90);
    assert!(parse_msg(&mut ByteReader::new(unknown), 1).is_err());

    let request = vec![0x94, 0x00, 0x01, 0xa0, 0x90];
    assert!(parse_msg(&mut ByteReader::new(request), 1).is_err());
}

#[test]
fn msgpack_integers_of_every_width() {
    let mut read = ByteReader::new(vec![
        0x07, 0xff, 0xcc, 0xff, 0xd0, 0x80, 0xd1, 0xff, 0xfe, 0xcf, 0xff, 0xff, 0xff, 0xff, 0xff,
        0xff, 0xff, 0xff, 0xd3, 0x80, 0, 0, 0, 0, 0, 0, 0,
    ]);
    assert_eq!(read_int(&mut read).unwrap(), 7);
    assert_eq!(read_int(&mut read).unwrap(), -1);
    assert_eq!(read_int(&mut read).unwrap(), 255);
    assert_eq!(read_int(&mut read).unwrap(), -128);
    assert_eq!(read_int(&mut read).unwrap(), -2);
    assert_eq!(read_int(&mut read).unwrap(), u64::MAX as i128);
    assert_eq!(read_int(&mut read).unwrap(), i64::MIN as i128);
    assert!(read_int(&mut read).is_err());
}
