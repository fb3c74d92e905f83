use networking::wire::{read_packet, Hello, Kind, Malformed, Message, Packet, UnknownKind, WhatsUp};

const NONCE: [u8; 8] = [1, 2, 3, 4, 5, 6, 7, 8];
const ZID: [u8; 16] = [16, 15, 14, 13, 12, 11, 10, 9, 8, 7, 6, 5, 4, 3, 2, 1];

#[test]
fn kinds_and_their_bytes() {
    assert_eq!(Kind::Hello.to_byte(), 0);
    assert_eq!(Kind::WhatsUp.to_byte(), 1);
    assert_eq!(Kind::try_from(0), Ok(Kind::Hello));
    assert_eq!(Kind::try_from(1), Ok(Kind::WhatsUp));
    for byte in 2..=255u8 {
        assert_eq!(Kind::try_from(byte), Err(UnknownKind));
    }
}

#[test]
fn kinds_of_the_messages() {
    assert_eq!(Hello::KIND, Kind::Hello);
    assert_eq!(WhatsUp::KIND, Kind::WhatsUp);
}

#[test]
fn headers_hold_the_magic_and_the_kind() {
    assert_eq!(format!("{:?}", Hello::header()), "Header { magic: [69, 88, 79], kind: 0 }");
    assert_eq!(format!("{:?}", WhatsUp::header()), "Header { magic: [69, 88, 79], kind: 1 }");
}

#[test]
fn sizes_of_packets() {
    assert_eq!(Hello::buf_size(), 12);
    assert_eq!(WhatsUp::buf_size(), 28);
}

#[test]
fn a_hello_as_it_is_sent() {
    let mut buf = [0u8; 12];
    Hello { nonce: NONCE }.write_into(&mut buf);
    assert_eq!(buf, *b"EXO\x00\x01\x02\x03\x04\x05\x06\x07\x08");
}

#[test]
fn an_answer_as_it_is_sent() {
    let mut buf = [0u8; 28];
    WhatsUp { nonce: NONCE, zid: ZID }.write_into(&mut buf);
    assert_eq!(buf[..4], *b"EXO\x01");
    assert_eq!(buf[4..12], NONCE);
    assert_eq!(buf[12..], ZID);
}

#[test]
fn what_stands_behind_a_packet_is_left_alone() {
    let mut buf = [0xaau8; 14];
    Hello { nonce: NONCE }.write_into(&mut buf);
    assert_eq!(buf, *b"EXO\x00\x01\x02\x03\x04\x05\x06\x07\x08\xaa\xaa");
}

#[test]
fn a_hello_is_read_back() {
    let mut buf = [0u8; 12];
    Hello { nonce: NONCE }.write_into(&mut buf);
    match read_packet(&buf) {
        Ok(Packet::Hello(hello)) => assert_eq!(hello.nonce, NONCE),
        other => panic!("{other:?}"),
    }
}

#[test]
fn an_answer_is_read_back() {
    let mut buf = [0u8; 28];
    WhatsUp { nonce: NONCE, zid: ZID }.write_into(&mut buf);
    match read_packet(&buf) {
        Ok(Packet::WhatsUp(answer)) => {
            assert_eq!(answer.nonce, NONCE);
            assert_eq!(answer.zid, ZID);
        }
        other => panic!("{other:?}"),
    }
}

#[test]
fn what_is_read_is_written_as_it_was() {
    let bytes = *b"EXO\x01abcdefghABCDEFGHIJKLMNOP";
    let Ok(Packet::WhatsUp(answer)) = read_packet(&bytes) else {
        panic!("no answer");
    };
    let mut buf = [0u8; 28];
    answer.write_into(&mut buf);
    assert_eq!(buf, bytes);
}

#[test]
fn bytes_that_are_no_packet() {
    let cases: Vec<(&[u8], Malformed)> = vec![
        (b"", Malformed::EarlyEof),
        (b"EXO", Malformed::EarlyEof),
        (b"EXA\x00\x01\x02\x03\x04\x05\x06\x07\x08", Malformed::WrongMagic),
        (b"exo\x00", Malformed::WrongMagic),
        (b"EXO\x02", Malformed::UnknownKind(2)),
        (b"EXO\xff\x01\x02", Malformed::UnknownKind(255)),
        (b"EXO\x00", Malformed::HelloWrongSize),
        (b"EXO\x00\x01\x02\x03\x04\x05\x06\x07", Malformed::HelloWrongSize),
        (b"EXO\x00\x01\x02\x03\x04\x05\x06\x07\x08\x09", Malformed::HelloWrongSize),
        (b"EXO\x01", Malformed::WhatsUpWrongSize),
        (b"EXO\x01\x01\x02\x03\x04\x05\x06\x07\x08", Malformed::WhatsUpWrongSize),
        (b"EXO\x01abcdefghABCDEFGHIJKLMNOPQ", Malformed::WhatsUpWrongSize),
    ];
    for (bytes, expected) in cases {
        match read_packet(bytes) {
            Err(malformed) => assert_eq!(malformed, expected),
            Ok(packet) => panic!("{packet:?}"),
        }
    }
}
