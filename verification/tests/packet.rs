use gameserver::ops::Packet;
use gameserver::server::PacketInfo;
use gameserver::server::error_response;
use gameserver::wire::Wire;

#[test]
fn new_packet_starts_at_zero() {
    let p = Packet::new(vec![7u8, 8, 9]);
    assert_eq!(p.pos, 0);
    assert_eq!(p.buf, vec![7u8, 8, 9]);
    assert_eq!(*p.ptr(), 7);
}

#[test]
fn push_writes_little_endian_and_advances() {
    let mut p = Packet::new(vec![0xaau8; 6]);
    p.push::<u16>(&0x1234);
    p.push::<u8>(&0x56);
    p.push::<i16>(&-2);
    assert_eq!(p.pos, 5);
    assert_eq!(p.buf, vec![0x34u8, 0x12, 0x56, 0xfe, 0xff, 0xaa]);
    assert_eq!(*p.ptr(), 0xaa);
}

#[test]
fn pull_reads_what_push_wrote() {
    let mut p = Packet::new(vec![0u8; 8]);
    p.push::<u16>(&65535);
    p.push::<i16>(&-32768);
    p.push::<i16>(&32767);
    p.push::<u8>(&200);
    let mut q = Packet::new(p.buf.clone());
    assert_eq!(q.pull::<u16>(), 65535);
    assert_eq!(q.pull::<i16>(), -32768);
    assert_eq!(q.pull::<i16>(), 32767);
    assert_eq!(q.pull::<u8>(), 200);
    assert_eq!(q.pos, 7);
}

#[test]
fn peek_reads_and_advances_like_pull() {
    let mut p = Packet::new(vec![0x01u8, 0x02, 0x03]);
    assert_eq!(p.peek::<u16>(), 0x0201);
    assert_eq!(p.pos, 2);
    assert_eq!(p.peek::<u8>(), 3);
    assert_eq!(p.pos, 3);
}

#[test]
fn peek_slice_takes_bytes_and_advances() {
    let mut p = Packet::new(vec![1u8, 2, 3, 4, 5]);
    p.pos = 1;
    assert_eq!(p.peek_slice(3), vec![2u8, 3, 4]);
    assert_eq!(p.pos, 4);
    assert_eq!(p.peek_slice(0), Vec::<u8>::new());
    assert_eq!(p.pos, 4);
}

#[test]
fn push_slice_copies_bytes() {
    let mut p = Packet::new(vec![0u8; 5]);
    p.pos = 1;
    p.push_slice(b"abc");
    assert_eq!(p.pos, 4);
    assert_eq!(p.buf, vec![0u8, b'a', b'b', b'c', 0]);
}

#[test]
fn has_compares_room_with_size() {
    let mut p = Packet::new(vec![0u8; 16]);
    p.pos = 3;
    assert!(p.has::<i16>(5));
    assert!(!p.has::<i16>(4));
    assert!(p.has::<u8>(4));
    assert!(!p.has::<u8>(3));
}

#[test]
fn wire_sizes() {
    assert_eq!(<u8 as Wire>::size(), 1);
    assert_eq!(<u16 as Wire>::size(), 2);
    assert_eq!(<i16 as Wire>::size(), 2);
}

#[test]
fn packets_gives_both_packets() {
    let mut info = PacketInfo {
        packet_id: 1,
        opcode: 2,
        len: 3,
        request: Packet::new(vec![9u8; 4]),
        response: Packet::new(vec![0u8; 4]),
    };
    {
        let (request, response) = info.packets();
        let v = request.pull::<u8>();
        response.push::<u8>(&v);
    }
    assert_eq!(info.request.pos, 1);
    assert_eq!(info.response.pos, 1);
    assert_eq!(info.response.buf, vec![9u8, 0, 0, 0]);
}

#[test]
fn error_response_writes_header_length_and_message() {
    let mut info = PacketInfo {
        packet_id: 0x0102,
        opcode: 2,
        len: 3,
        request: Packet::new(vec![0u8; 4]),
        response: Packet::new(vec![0u8; 16]),
    };
    error_response(&mut info, b"oops");
    assert_eq!(info.response.pos, 9);
    assert_eq!(&info.response.buf[..9], &[0x02u8, 0x01, 0, 4, 0, b'o', b'o', b'p', b's']);
}
