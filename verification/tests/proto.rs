//! Reading and writing messages and their arguments.
use wlproxy::proto::{
    header_word1, header_word2, read, read_arg_string, read_arg_uint, read_packet,
    write_arg_string, write_arg_uint, write_packet, ByteReader, ByteSink, ByteWriter, Packet,
    PacketReader, Progress, ReadError, WriteError,
};

// ---------------------------------------------------------------------------
// Packet read / write
// ---------------------------------------------------------------------------

#[test]
fn packet_roundtrip_empty_body() {
    let p = Packet {
        id: 1,
        opcode: 0,
        body: vec![],
    };
    let mut buf = vec![];
    write_packet(&mut buf, &p).unwrap();
    let mut c = ByteReader::new(&buf);
    let r = read_packet(&mut c).unwrap().unwrap();
    assert_eq!(r.id, 1);
    assert_eq!(r.opcode, 0);
    assert!(r.body.is_empty());
}

#[test]
fn packet_roundtrip_with_body() {
    let p = Packet {
        id: 42,
        opcode: 7,
        body: vec![0xAA, 0xBB, 0xCC, 0xDD],
    };
    let mut buf = vec![];
    write_packet(&mut buf, &p).unwrap();
    let mut c = ByteReader::new(&buf);
    let r = read_packet(&mut c).unwrap().unwrap();
    assert_eq!(r.id, 42);
    assert_eq!(r.opcode, 7);
    assert_eq!(r.body, vec![0xAA, 0xBB, 0xCC, 0xDD]);
}

#[test]
fn packet_odd_body_size() {
    let body = vec![1u8, 2, 3];
    let p = Packet {
        id: 1,
        opcode: 0,
        body: body.clone(),
    };
    let mut buf = vec![];
    write_packet(&mut buf, &p).unwrap();
    assert_eq!(buf.len(), 11);
    let mut c = ByteReader::new(&buf);
    let r = read_packet(&mut c).unwrap().unwrap();
    assert_eq!(r.body, body);
}

#[test]
fn packet_large_body() {
    let body = vec![0x42u8; 4096];
    let p = Packet {
        id: 1,
        opcode: 0,
        body: body.clone(),
    };
    let mut buf = vec![];
    write_packet(&mut buf, &p).unwrap();
    assert_eq!(buf.len(), 8 + 4096);
    let mut c = ByteReader::new(&buf);
    let r = read_packet(&mut c).unwrap().unwrap();
    assert_eq!(r.body, body);
}

#[test]
fn packet_max_id_and_opcode() {
    let p = Packet {
        id: u32::MAX,
        opcode: u16::MAX,
        body: vec![],
    };
    let mut buf = vec![];
    write_packet(&mut buf, &p).unwrap();
    let mut c = ByteReader::new(&buf);
    let r = read_packet(&mut c).unwrap().unwrap();
    assert_eq!(r.id, u32::MAX);
    assert_eq!(r.opcode, u16::MAX);
}

#[test]
fn packet_wire_format() {
    let p = Packet {
        id: 1,
        opcode: 2,
        body: vec![3, 0, 0, 0],
    };
    let mut buf = vec![];
    write_packet(&mut buf, &p).unwrap();
    assert_eq!(buf, vec![1, 0, 0, 0, 2, 0, 12, 0, 3, 0, 0, 0]);
}

#[test]
fn packet_multiple_sequential() {
    let packets = vec![
        Packet {
            id: 1,
            opcode: 0,
            body: vec![],
        },
        Packet {
            id: 2,
            opcode: 1,
            body: vec![0x10, 0x00, 0x00, 0x00],
        },
        Packet {
            id: 3,
            opcode: 2,
            body: vec![0x20, 0x00, 0x00, 0x00, 0x30, 0x00, 0x00, 0x00],
        },
    ];
    let mut buf = vec![];
    for p in &packets {
        write_packet(&mut buf, p).unwrap();
    }
    let mut c = ByteReader::new(&buf);
    for expected in &packets {
        let r = read_packet(&mut c).unwrap().unwrap();
        assert_eq!(r.id, expected.id, "id mismatch");
        assert_eq!(r.opcode, expected.opcode, "opcode mismatch");
        assert_eq!(r.body, expected.body, "body mismatch");
    }
    assert!(read_packet(&mut c).unwrap().is_none());
}

// ---------------------------------------------------------------------------
// Packet EOF / error handling
// ---------------------------------------------------------------------------

#[test]
fn packet_returns_none_on_empty_reader() {
    let mut c = ByteReader::new(&[]);
    assert!(read_packet(&mut c).unwrap().is_none());
}

#[test]
fn packet_returns_none_on_broken_pipe() {
    let mut r = ByteReader::failing(&[], ReadError::BrokenPipe);
    assert!(read_packet(&mut r).unwrap().is_none());
}

#[test]
fn packet_returns_none_on_connection_reset() {
    let mut r = ByteReader::failing(&[], ReadError::ConnectionReset);
    assert!(read_packet(&mut r).unwrap().is_none());
}

#[test]
fn packet_returns_none_on_not_connected() {
    let mut r = ByteReader::failing(&[], ReadError::NotConnected);
    assert!(read_packet(&mut r).unwrap().is_none());
}

#[test]
fn packet_returns_err_on_generic_error() {
    let mut r = ByteReader::failing(&[], ReadError::Other);
    assert_eq!(read_packet(&mut r), Err("header word 1"));
}

#[test]
fn packet_returns_err_on_partial_header() {
    let mut c = ByteReader::new(&[0u8; 4]);
    assert_eq!(read_packet(&mut c), Err("header word 2"));
}

#[test]
fn packet_returns_err_on_truncated_body() {
    let mut buf = vec![0u8; 8];
    // message_size is in header_word2[2..4] = buf[6..8]
    buf[6..8].copy_from_slice(&20u16.to_le_bytes());
    let mut c = ByteReader::new(&buf);
    assert_eq!(read_packet(&mut c), Err("body"));
}

// ---------------------------------------------------------------------------
// Uint read / write
// ---------------------------------------------------------------------------

#[test]
fn uint_roundtrip_various() {
    let values = [
        0u32, 1, 42, 0xFF, 0xFFFF, 0xDEADBEEF, 0xCAFEBABE, 0xFFFFFFFF,
    ];
    for &val in &values {
        let mut buf = vec![];
        write_arg_uint(&mut buf, val).unwrap();
        assert_eq!(buf.len(), 4);
        let mut c = ByteReader::new(&buf);
        let r = read_arg_uint(&mut c).unwrap();
        assert_eq!(r, val, "roundtrip failed for 0x{val:08X}");
    }
}

#[test]
fn uint_wire_format() {
    let mut buf = vec![];
    write_arg_uint(&mut buf, 0xDEADBEEF).unwrap();
    assert_eq!(buf, vec![0xEF, 0xBE, 0xAD, 0xDE]);
}

#[test]
fn uint_errors_on_truncated_read() {
    let mut c = ByteReader::new(&[0u8; 3]);
    assert_eq!(read_arg_uint(&mut c), Err("uint"));
}

// ---------------------------------------------------------------------------
// String read / write
// ---------------------------------------------------------------------------

#[test]
fn string_roundtrip_various() {
    let cases: [(&str, Option<&str>); 7] = [
        ("", Some("")),
        ("a", Some("a")),
        ("ab", Some("ab")),
        ("abc", Some("abc")),
        ("abcd", Some("abcd")),
        ("hello", Some("hello")),
        ("a quick brown fox", Some("a quick brown fox")),
    ];
    for (input, expected) in &cases {
        let mut buf = vec![];
        write_arg_string(&mut buf, input).unwrap();
        let mut c = ByteReader::new(&buf);
        let r = read_arg_string(&mut c).unwrap();
        assert_eq!(r.as_deref(), *expected, "failed for {input:?}");
    }
}

#[test]
fn string_unicode() {
    let s = "Привет, мир!";
    let mut buf = vec![];
    write_arg_string(&mut buf, s).unwrap();
    let mut c = ByteReader::new(&buf);
    let r = read_arg_string(&mut c).unwrap();
    assert_eq!(r, Some(s.to_string()));
}

#[test]
fn string_null() {
    let buf = [0u8; 4];
    let mut c = ByteReader::new(&buf[..]);
    let r = read_arg_string(&mut c).unwrap();
    assert!(r.is_none());
}

#[test]
fn string_wire_format_simple() {
    let mut buf = vec![];
    write_arg_string(&mut buf, "hi").unwrap();
    assert_eq!(buf, vec![3, 0, 0, 0, b'h', b'i', 0, 0]);
}

#[test]
fn string_padding() {
    // null_term_len = n+1 must be padded to next multiple of 4.
    for n in 0..=3 {
        let s = "x".repeat(n);
        let mut buf = vec![];
        write_arg_string(&mut buf, s.as_str()).unwrap();
        let expected_total = 4 + (n + 1).next_multiple_of(4);
        assert_eq!(buf.len(), expected_total, "wrong padded size for n={n}");
        let mut c = ByteReader::new(&buf);
        let r = read_arg_string(&mut c).unwrap();
        assert_eq!(r, Some(s), "roundtrip failed for n={n}");
    }
}

#[test]
fn string_errors_on_truncated_length() {
    let mut c = ByteReader::new(&[0u8; 3]);
    assert_eq!(
        read_arg_string(&mut c),
        Err("null terminated string length")
    );
}

#[test]
fn string_errors_on_truncated_body() {
    let buf = [20u8, 0, 0, 0, 0, 0, 0, 0];
    let mut c = ByteReader::new(&buf[..]);
    assert_eq!(read_arg_string(&mut c), Err("string body"));
}

#[test]
fn string_errors_on_bad_utf8() {
    let mut buf = vec![3u8, 0, 0, 0];
    buf.extend_from_slice(&[0xFF, 0xFE, 0x00, 0x00]);
    let mut c = ByteReader::new(&buf);
    assert_eq!(read_arg_string(&mut c), Err("bad utf-8"));
}

// ---------------------------------------------------------------------------
// Streams and their ends
// ---------------------------------------------------------------------------

#[test]
fn read_takes_exactly_what_is_asked_for() {
    let data = [1, 2, 3, 4, 5];
    let mut c = ByteReader::new(&data);
    assert_eq!(read(&mut c, 2), Ok(vec![1, 2]));
    assert_eq!(read(&mut c, 0), Ok(vec![]));
    assert_eq!(read(&mut c, 4), Err(ReadError::UnexpectedEof));
    assert_eq!(read(&mut c, 1), Err(ReadError::UnexpectedEof));
    let mut c = ByteReader::failing(&data, ReadError::Other);
    assert_eq!(read(&mut c, 6), Err(ReadError::Other));
}

#[test]
fn packet_returns_none_on_every_disconnect() {
    let gone = [
        ReadError::UnexpectedEof,
        ReadError::BrokenPipe,
        ReadError::NotConnected,
        ReadError::ConnectionAborted,
        ReadError::ConnectionRefused,
        ReadError::ConnectionReset,
    ];
    for error in gone {
        assert!(error.is_disconnect());
        assert_eq!(read_packet(&mut ByteReader::failing(&[1, 2, 3], error)), Ok(None));
    }
    assert!(!ReadError::Other.is_disconnect());
    assert_eq!(
        read_packet(&mut ByteReader::failing(&[1, 2, 3], ReadError::Other)),
        Err("header word 1")
    );
}

#[test]
fn packet_errors() {
    let short: [&[u8]; 3] = [&[1, 0, 0, 0], &[1, 0, 0, 0, 2, 0, 8], &[1, 0, 0, 0, 2, 0]];
    for bytes in short {
        assert_eq!(read_packet(&mut ByteReader::new(bytes)), Err("header word 2"));
    }
    for size in 0..8 {
        let bytes = [1, 0, 0, 0, 2, 0, size, 0, 9, 9, 9, 9];
        let mut c = ByteReader::new(&bytes);
        assert_eq!(read_packet(&mut c), Err("message size too small"));
        assert_eq!(read(&mut c, 4), Ok(vec![9, 9, 9, 9]));
    }
    let bytes = [1, 0, 0, 0, 2, 0, 10, 0, 9];
    assert_eq!(read_packet(&mut ByteReader::new(&bytes)), Err("body"));
}

#[test]
fn packet_written_back() {
    let bytes = [1, 2, 3, 4, 5, 6, 10, 0, 7, 8, 99];
    let mut c = ByteReader::new(&bytes);
    let packet = read_packet(&mut c).unwrap().unwrap();
    assert_eq!(packet, Packet { id: 0x0403_0201, opcode: 0x0605, body: vec![7, 8] });
    let mut out = vec![];
    write_packet(&mut out, &packet).unwrap();
    assert_eq!(out, bytes[..10]);
    assert_eq!(header_word1(&packet), bytes[..4]);
    assert_eq!(header_word2(&packet), bytes[4..8]);
}

#[test]
fn packet_size_wraps_around() {
    let largest = Packet { id: 1, opcode: 2, body: vec![0; 0xfff7] };
    assert_eq!(header_word2(&largest), [2, 0, 0xff, 0xff]);
    let too_large = Packet { id: 1, opcode: 2, body: vec![0; 0xfff8] };
    assert_eq!(header_word2(&too_large), [2, 0, 0, 0]);
    let larger = Packet { id: 1, opcode: 2, body: vec![0; 0x1_0004] };
    assert_eq!(header_word2(&larger), [2, 0, 12, 0]);
}

#[test]
fn packet_piece_by_piece() {
    let word1 = PacketReader::Word1;
    assert_eq!(word1.wanted(), 4);
    let word2 = match word1.advance(Ok(vec![1, 0, 0, 0])) {
        Progress::Reading(next) => next,
        other => panic!("{other:?}"),
    };
    assert_eq!(word2, PacketReader::Word2 { id: 1 });
    assert_eq!(word2.wanted(), 4);
    let body = match word2.advance(Ok(vec![2, 0, 10, 0])) {
        Progress::Reading(next) => next,
        other => panic!("{other:?}"),
    };
    assert_eq!(body, PacketReader::Body { id: 1, opcode: 2, len: 2 });
    assert_eq!(body.wanted(), 2);
    assert!(matches!(body.advance(Err(ReadError::UnexpectedEof)), Progress::Failed("body")));
    match body.advance(Ok(vec![7, 8])) {
        Progress::Complete(packet) => {
            assert_eq!(packet, Packet { id: 1, opcode: 2, body: vec![7, 8] })
        }
        other => panic!("{other:?}"),
    }
    assert!(matches!(word1.advance(Err(ReadError::BrokenPipe)), Progress::Closed));
    assert!(matches!(
        word2.advance(Err(ReadError::BrokenPipe)),
        Progress::Failed("header word 2")
    ));
}

#[test]
fn string_errors_by_name() {
    let cases: [(&[u8], &str); 4] = [
        (&[1, 0, 0], "null terminated string length"),
        (&[2, 0, 0, 0, b'a', 0, 0], "string body"),
        (&[2, 0, 0, 0, 0xff, 0, 0, 0], "bad utf-8"),
        (&[3, 0, 0, 0, 0xc3, 0x28, 0, 0], "bad utf-8"),
    ];
    for (bytes, expected) in cases {
        assert_eq!(read_arg_string(&mut ByteReader::new(bytes)), Err(expected));
    }
}

#[test]
fn string_last_byte_is_not_looked_at() {
    let mut c = ByteReader::new(&[2, 0, 0, 0, b'a', b'b', b'c', b'd', 7]);
    assert_eq!(read_arg_string(&mut c), Ok(Some("a".to_string())));
    assert_eq!(read(&mut c, 1), Ok(vec![7]));
}

#[test]
fn string_lengths_without_a_multiple_above_them() {
    for low in [0xfd, 0xfe, 0xff] {
        let bytes = [low, 0xff, 0xff, 0xff, 1, 2, 3, 4];
        let mut c = ByteReader::new(&bytes);
        assert_eq!(read_arg_string(&mut c), Ok(Some(String::new())));
        assert_eq!(read(&mut c, 4), Ok(vec![1, 2, 3, 4]));
    }
    assert_eq!(
        read_arg_string(&mut ByteReader::new(&[0xfc, 0xff, 0xff, 0xff])),
        Err("string body")
    );
}

// ---------------------------------------------------------------------------
// Writers that fail
// ---------------------------------------------------------------------------

#[test]
fn writer_takes_what_there_is_room_for() {
    let mut w = ByteWriter::new(5);
    assert_eq!(w.write_all(&[1, 2]), Ok(()));
    assert_eq!(w.write_all(&[]), Ok(()));
    assert_eq!(w.write_all(&[3, 4, 5, 6]), Err(WriteError));
    assert_eq!(w.bytes(), [1, 2, 3, 4, 5]);
    assert_eq!(w.write_all(&[7]), Err(WriteError));
    assert_eq!(w.write_all(&[]), Ok(()));
    assert_eq!(w.bytes(), [1, 2, 3, 4, 5]);
}

#[test]
fn uint_write_errors() {
    for room in 0..4 {
        let mut w = ByteWriter::new(room);
        assert_eq!(write_arg_uint(&mut w, 0x0403_0201), Err("arg"));
        assert_eq!(w.bytes(), &[1, 2, 3, 4][..room]);
    }
    let mut w = ByteWriter::new(4);
    assert_eq!(write_arg_uint(&mut w, 0x0403_0201), Ok(()));
    assert_eq!(w.bytes(), [1, 2, 3, 4]);
}

#[test]
fn string_write_errors() {
    let mut whole: Vec<u8> = vec![];
    write_arg_string(&mut whole, "hello").unwrap();
    assert_eq!(whole.len(), 12);
    for room in 0..=13 {
        let mut w = ByteWriter::new(room);
        let expected = match room {
            0..=3 => Err("null terminated string length"),
            4..=11 => Err("string body"),
            _ => Ok(()),
        };
        assert_eq!(write_arg_string(&mut w, "hello"), expected);
        assert_eq!(w.bytes(), &whole[..room.min(12)]);
    }
}

#[test]
fn packet_write_errors() {
    let p = Packet { id: 7, opcode: 3, body: vec![1, 2, 3] };
    let mut whole: Vec<u8> = vec![];
    write_packet(&mut whole, &p).unwrap();
    for room in 0..=12 {
        let mut w = ByteWriter::new(room);
        let expected = match room {
            0..=3 => Err("header word 1"),
            4..=7 => Err("header word 2"),
            8..=10 => Err("body"),
            _ => Ok(()),
        };
        assert_eq!(write_packet(&mut w, &p), expected);
        assert_eq!(w.bytes(), &whole[..room.min(11)]);
    }
    let empty = Packet { id: 7, opcode: 3, body: vec![] };
    assert_eq!(write_packet(&mut ByteWriter::new(8), &empty), Ok(()));
}
