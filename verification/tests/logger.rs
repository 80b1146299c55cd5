use sio::logger::iter::validate;
use sio::logger::logfile::{MAGIC, VERSION};
use sio::logger::{FileHeader, LogFileParser, LogState, MessageHeader, Permission};
use sio::Time;

fn new_log(messages: &[(u16, &[u8])]) -> Vec<u8> {
    let mut bytes = FileHeader::for_new_log().to_bytes();
    let mut state = LogState::starting_at(0);
    for (ty, data) in messages {
        bytes.extend(state.record(Time::new(1000), *ty, data));
        state.advance();
    }
    bytes
}

#[test]
fn file_header_bytes_round_trip() {
    let h = FileHeader::for_new_log();
    assert_eq!(h.magic, MAGIC);
    assert_eq!(h.version, VERSION);
    assert_eq!(h.msg_header_size(), 32);
    assert_eq!(h.file_header_size(), 8);
    let b = h.to_bytes();
    assert_eq!(b, vec![0xCE, 0xFA, 0xED, 0xFE, 1, 32, 8, 0]);
    assert_eq!(FileHeader::from_bytes(&b), h);
}

#[test]
fn message_header_bytes_round_trip() {
    let h = MessageHeader::new(Time::new(0x0102030405060708), 9, 3, 77, 0xABCD);
    assert_eq!(h.time(), Time::new(0x0102030405060708));
    assert_eq!(h.seqnum(), 9);
    assert_eq!(h.length(), 3);
    assert_eq!(h.checksum(), 77);
    assert_eq!(h.msg_type(), 0xABCD);
    let b = h.to_bytes();
    assert_eq!(b.len(), 32);
    assert_eq!(&b[0..8], &[8, 7, 6, 5, 4, 3, 2, 1]);
    assert_eq!(&b[24..26], &[0xCD, 0xAB]);
    assert_eq!(MessageHeader::from_bytes(&b), h);
}

#[test]
fn records_read_back() {
    let bytes = new_log(&[(1, b"Some data."), (2, b""), (3, b"xyz")]);
    let parser = LogFileParser::new(&bytes);
    let file = parser.parse().unwrap();
    assert_eq!(file.header(), FileHeader::for_new_log());
    let mut it = file.into_iter();
    let m0 = it.next().unwrap().unwrap();
    assert_eq!(m0.hdr.seqnum(), 0);
    assert_eq!(m0.hdr.msg_type(), 1);
    assert_eq!(m0.hdr.time(), Time::new(1000));
    assert_eq!(m0.data, b"Some data.".to_vec());
    let m1 = it.next().unwrap().unwrap();
    assert_eq!((m1.hdr.seqnum(), m1.data.len()), (1, 0));
    let m2 = it.next().unwrap().unwrap();
    assert_eq!(m2.hdr.seqnum(), 2);
    assert_eq!(m2.data, b"xyz".to_vec());
    assert!(it.next().is_none());
    assert_eq!(validate(&bytes), Ok(3));
}

#[test]
fn written_log_validates() {
    assert_eq!(validate(&new_log(&[])), Ok(0));
    assert_eq!(validate(&new_log(&[(0, b"a"), (0, b"bc")])), Ok(2));
}

#[test]
fn damaged_logs() {
    let mut bad_magic = new_log(&[]);
    bad_magic[0] = 0;
    assert_eq!(validate(&bad_magic).unwrap_err().description(), "invalid magic");
    let mut bad_version = new_log(&[]);
    bad_version[4] = 2;
    assert_eq!(validate(&bad_version).unwrap_err().description(), "invalid version");
    let mut short_header = new_log(&[(0, b"abc")]);
    short_header.truncate(8 + 10);
    assert_eq!(
        validate(&short_header).unwrap_err().description(),
        "Not enough space for header"
    );
    let mut short_data = new_log(&[(0, b"abc")]);
    short_data.truncate(8 + 32 + 1);
    assert_eq!(validate(&short_data).unwrap_err().description(), "invalid message size");
    let tiny = vec![0u8; 3];
    let parsed = LogFileParser::new(&tiny).parse();
    assert_eq!(parsed.err().unwrap().description(), "file does not have header too small");
}

#[test]
fn sequence_numbers_advance() {
    let mut state = LogState::starting_at(5);
    let rec = state.record(Time::new(1), 4, b"hi");
    assert_eq!(rec.len(), 34);
    assert_eq!(MessageHeader::from_bytes(&rec).seqnum(), 5);
    assert_eq!(state.advance(), 5);
    assert_eq!(state.advance(), 6);
    assert!(Permission::ReadWrite.writeable());
    assert!(!Permission::Read.writeable());
}
