use gameserver::ops::in_op;
use gameserver::ops::out_op;
use gameserver::ops::Packet;
use gameserver::server::{Handled, Server, IN_BUF_SIZE};

/// Receives `datagram` into the server's input buffer, as a socket would,
/// and handles it.
fn deliver(server: &mut Server, in_buf: &mut Vec<u8>, datagram: &[u8]) -> Handled {
    in_buf[..datagram.len()].copy_from_slice(datagram);
    server.handle_datagram(in_buf, datagram.len())
}

/// The bytes of the answer, as a client's 256-byte receive buffer holds them,
/// with the number of bytes received.
fn received(h: Handled) -> (Vec<u8>, usize) {
    let reply = match h {
        Handled::Answered { reply, .. } => reply,
        Handled::Pong { reply } => reply,
        _ => panic!("no answer was sent"),
    };
    let mut packet = vec![0u8; 256];
    packet[..reply.len()].copy_from_slice(&reply);
    (packet, reply.len())
}

/// A create request as the test client builds it: a 128-byte buffer with the
/// packet id, the opcode, the name's length and the name.
fn create_request(name: &[u8], packet_id: i32) -> Vec<u8> {
    let mut buf = vec![0u8; 128];
    let id_bytes = packet_id.to_le_bytes();
    buf[0] = id_bytes[0];
    buf[1] = id_bytes[1];
    buf[2] = in_op::NEW_GAME;
    buf[3] = name.len() as u8;
    buf[4..4 + name.len()].copy_from_slice(name);
    buf
}

/// A join request as the test client builds it, cut at the end of the name.
fn join_request(name: &[u8], packet_id: u16) -> Vec<u8> {
    let mut request = Packet::new(vec![0u8; 128]);
    request.push::<u16>(&packet_id);
    request.push::<u8>(&in_op::JOIN_GAME);
    request.push(&(name.len() as u8));
    request.push_slice(name);
    let len = request.pos;
    request.buf[..len].to_vec()
}

#[test]
fn server_can_receive_packet() {
    let mut server = Server::new();
    let mut in_buf = vec![0u8; IN_BUF_SIZE];
    let mut buf = [0u8; 256];
    buf[0] = 90;
    let h = deliver(&mut server, &mut in_buf, &buf);
    assert!(matches!(h, Handled::UnknownOp { packet_id: 90, opcode: 0 }));
}

#[test]
fn server_can_be_pinged() {
    let mut server = Server::new();
    let mut in_buf = vec![0u8; IN_BUF_SIZE];
    let buf = [1u8];
    let (packet, len) = received(deliver(&mut server, &mut in_buf, &buf));
    assert!(len == 1, "Length of ping return packet was not 1, it was {}", len);
    assert!(packet[0] == 1, "First byte of ping return packet was not 1, it was {}", packet[0]);
}

#[test]
fn server_cannot_create_2_games_with_the_same_name() {
    let mut server = Server::new();
    let mut in_buf = vec![0u8; IN_BUF_SIZE];

    let (packet, _len) =
        received(deliver(&mut server, &mut in_buf, &create_request(b"Stupid game", 0)));
    assert_eq!(packet[0], 0);
    assert_eq!(packet[1], 0);
    assert!(packet[2] == out_op::GAME_CREATED,
            "Returned opcode was not GAME_CREATED, rather {}", packet[0]);

    let (packet, len) =
        received(deliver(&mut server, &mut in_buf, &create_request(b"Stupid game", 0)));
    let mut response = Packet::new(packet);
    let packet_id = response.pull::<u16>();
    assert_eq!(packet_id, 0);
    let opcode = response.pull::<u8>();
    assert!(opcode == out_op::ERROR, "Returned opcode was not ERROR, rather {}", opcode);

    assert!(len > 3, "No error message returned. packet length: {}", len);

    let msg_len = response.pull::<u16>() as usize;
    assert!(msg_len > 1, "Message should have a length greater than 1; got {}", msg_len);
    let bytes = response.peek_slice(msg_len);
    let msg = match std::str::from_utf8(&bytes) {
        Ok(s) => s,
        Err(_) => panic!("Error message was not correct utf8 format"),
    };
    println!("Error message: {}", msg);
    assert_eq!(msg, "Game name Stupid game already taken");
}

#[test]
fn server_gets_a_player_id_or_something_on_game_create() {
    let mut server = Server::new();
    let mut in_buf = vec![0u8; IN_BUF_SIZE];
    let (buf, len) = received(deliver(&mut server, &mut in_buf, &create_request(b"THE GAME", 12)));
    let mut packet = Packet::new(buf);
    let packet_id: u16 = packet.pull();
    assert!(12 == packet_id, "Packet id mismatch! Expected {}, got {}", 12, packet_id);
    assert_eq!(packet.pull::<u8>(), out_op::GAME_CREATED);

    assert!(packet.has::<i16>(len), "Packet does not have an i16 player ID after opcode");
    let player_id: u16 = packet.pull();
    println!("Got a player ID of {}!", player_id);
    assert_eq!(player_id, 0);
}

#[test]
fn player_can_join_game() {
    let mut server = Server::new();
    let mut in_buf = vec![0u8; IN_BUF_SIZE];
    let mut host_player_id: u16 = 0xffff;

    let (buf, _len) =
        received(deliver(&mut server, &mut in_buf, &create_request(b"join me link", 13)));
    let mut packet = Packet::new(buf);
    let packet_id: u16 = packet.pull();
    assert!(13 == packet_id, "Packet id mismatch! Expected {}, got {}", 13, packet_id);
    assert_eq!(packet.pull::<u8>(), out_op::GAME_CREATED);
    host_player_id = packet.pull();
    assert_eq!(host_player_id, 0);

    let (buf, len) =
        received(deliver(&mut server, &mut in_buf, &join_request(b"join me link", 14)));
    let mut packet = Packet::new(buf);
    let packet_id: u16 = packet.pull();
    assert!(14 == packet_id, "Packet id mismatch! Expected {}, got {}", 14, packet_id);
    assert_eq!(packet.pull::<u8>(), out_op::GAME_JOINED);
    assert_eq!(len, 5);
    assert_eq!(packet.pull::<u16>(), 256);
}
