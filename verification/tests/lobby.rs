use gameserver::ops::{in_op, out_op, Packet};
use gameserver::server::{
    create_game, join_game, lookup, Game, Handled, Lookup, PacketInfo, Player, Server,
    IN_BUF_SIZE, MAX_GAMES, MAX_PLAYERS,
};
use gameserver::text::bytes_equal;

fn request(packet_id: u16, opcode: u8, name: &[u8]) -> Vec<u8> {
    let mut buf = vec![0u8; IN_BUF_SIZE];
    let mut p = Packet::new(buf.clone());
    p.push::<u16>(&packet_id);
    p.push::<u8>(&opcode);
    p.push::<u8>(&(name.len() as u8));
    p.push_slice(name);
    buf.copy_from_slice(&p.buf);
    buf
}

fn answer(server: &mut Server, packet_id: u16, opcode: u8, name: &[u8]) -> Vec<u8> {
    let buf = request(packet_id, opcode, name);
    match server.handle_datagram(&buf, 4 + name.len()) {
        Handled::Answered { packet_id: id, opcode: op, reply } => {
            assert_eq!(id, packet_id);
            assert_eq!(op, opcode);
            reply
        }
        _ => panic!("request was not answered"),
    }
}

fn error_message(reply: &[u8]) -> String {
    assert_eq!(reply[2], out_op::ERROR);
    let len = reply[3] as usize + 256 * reply[4] as usize;
    assert_eq!(reply.len(), 5 + len);
    String::from_utf8(reply[5..].to_vec()).unwrap()
}

#[test]
fn player_id_is_game_then_slot_little_endian() {
    assert_eq!(Player::new(3, 2).id, 3 + 256 * 2);
    assert_eq!(Player::new(0, 0).id, 0);
    assert_eq!(Player::new(255, 255).id, 65535);
}

#[test]
fn new_game_has_its_host_in_slot_zero() {
    let g = Game::new(7, b"abc".to_vec());
    assert_eq!(g.id, 7);
    assert_eq!(g.name, b"abc".to_vec());
    assert_eq!(g.players.len(), MAX_PLAYERS);
    assert_eq!(g.players[0].unwrap().id, 7);
    assert!(g.players[1..].iter().all(|p| p.is_none()));
}

#[test]
fn new_server_is_empty() {
    let s = Server::new();
    assert_eq!(s.games.len(), MAX_GAMES);
    assert!(s.games.iter().all(|g| g.is_none()));
}

#[test]
fn too_short_and_unknown_are_not_answered() {
    let mut s = Server::new();
    let buf = vec![0u8; IN_BUF_SIZE];
    assert!(matches!(s.handle_datagram(&buf, 0), Handled::TooShort));
    assert!(matches!(s.handle_datagram(&buf, 2), Handled::TooShort));
    let mut one = buf.clone();
    one[0] = 2;
    assert!(matches!(s.handle_datagram(&one, 1), Handled::TooShort));
    let mut unknown = buf.clone();
    unknown[0] = 7;
    unknown[2] = 9;
    assert!(matches!(s.handle_datagram(&unknown, 3), Handled::UnknownOp { packet_id: 7, opcode: 9 }));
}

#[test]
fn create_answers_with_the_slot_of_the_game() {
    let mut s = Server::new();
    assert_eq!(answer(&mut s, 5, in_op::NEW_GAME, b"one"), vec![5u8, 0, out_op::GAME_CREATED, 0, 0]);
    assert_eq!(answer(&mut s, 6, in_op::NEW_GAME, b"two"), vec![6u8, 0, out_op::GAME_CREATED, 1, 0]);
    assert_eq!(s.games[1].as_ref().unwrap().name, b"two".to_vec());
}

#[test]
fn create_refuses_a_long_name() {
    let mut s = Server::new();
    let reply = answer(&mut s, 1, in_op::NEW_GAME, b"sixteen letters!");
    assert_eq!(error_message(&reply), "Game name too long! Must be <= 15 characters.");
    assert!(s.games[0].is_none());
    let reply = answer(&mut s, 1, in_op::NEW_GAME, b"fifteen letters");
    assert_eq!(reply[2], out_op::GAME_CREATED);
}

#[test]
fn create_refuses_a_name_that_is_not_utf8() {
    let mut s = Server::new();
    let reply = answer(&mut s, 1, in_op::NEW_GAME, &[0xff, 0xfe]);
    assert_eq!(error_message(&reply), "Invalid game name");
    assert!(s.games[0].is_none());
}

#[test]
fn create_refuses_when_the_server_is_full() {
    let mut s = Server::new();
    for i in 0..MAX_GAMES {
        let name = format!("game {}", i);
        let reply = answer(&mut s, i as u16, in_op::NEW_GAME, name.as_bytes());
        assert_eq!(reply[2], out_op::GAME_CREATED);
        assert_eq!(reply[3] as usize, i);
    }
    let reply = answer(&mut s, 99, in_op::NEW_GAME, b"one more");
    assert_eq!(error_message(&reply), "Server is too full to accept another game");
}

#[test]
fn join_gives_the_next_slots_until_the_game_is_full() {
    let mut s = Server::new();
    answer(&mut s, 1, in_op::NEW_GAME, b"a");
    answer(&mut s, 1, in_op::NEW_GAME, b"b");
    for k in 1..MAX_PLAYERS {
        let reply = answer(&mut s, 2, in_op::JOIN_GAME, b"b");
        assert_eq!(reply, vec![2u8, 0, out_op::GAME_JOINED, 1, k as u8]);
    }
    let reply = answer(&mut s, 3, in_op::JOIN_GAME, b"b");
    assert_eq!(error_message(&reply), "Game is too full to accept another player");
}

#[test]
fn join_refuses_an_unknown_name() {
    let mut s = Server::new();
    answer(&mut s, 1, in_op::NEW_GAME, b"a");
    let reply = answer(&mut s, 4, in_op::JOIN_GAME, b"zz");
    assert_eq!(&reply[..2], &[4u8, 0]);
    assert_eq!(error_message(&reply), "No game is named zz");
    let reply = answer(&mut s, 4, in_op::JOIN_GAME, b"much too long name");
    assert_eq!(error_message(&reply), "Game name too long! Must be <= 15 characters.");
    let reply = answer(&mut s, 4, in_op::JOIN_GAME, &[0xc0]);
    assert_eq!(error_message(&reply), "Invalid game name");
}

#[test]
fn lookup_finds_names_and_free_slots() {
    let mut s = Server::new();
    assert!(matches!(lookup(&s.games, b"x"), Lookup::Free(0)));
    answer(&mut s, 1, in_op::NEW_GAME, b"x");
    answer(&mut s, 1, in_op::NEW_GAME, b"y");
    assert!(matches!(lookup(&s.games, b"y"), Lookup::Taken(1)));
    assert!(matches!(lookup(&s.games, b"z"), Lookup::Free(2)));
}

#[test]
fn create_and_join_work_on_packet_info() {
    let mut s = Server::new();
    let mut info = PacketInfo {
        packet_id: 9,
        opcode: in_op::NEW_GAME,
        len: 6,
        request: Packet::new(vec![0u8, 0, 0, 2, b'h', b'i', 0, 0, 0, 0, 0, 0, 0, 0, 0, 0, 0, 0, 0]),
        response: Packet::new(vec![0u8; 64]),
    };
    info.request.pos = 3;
    create_game(&mut s, &mut info);
    assert_eq!(info.request.pos, 6);
    assert_eq!(&info.response.buf[..info.response.pos], &[9u8, 0, out_op::GAME_CREATED, 0, 0]);

    info.request.pos = 3;
    info.response.pos = 0;
    join_game(&mut s, &mut info);
    assert_eq!(&info.response.buf[..info.response.pos], &[9u8, 0, out_op::GAME_JOINED, 0, 1]);
}

#[test]
fn bytes_equal_compares_contents() {
    assert!(bytes_equal(b"abc", b"abc"));
    assert!(!bytes_equal(b"abc", b"abd"));
    assert!(!bytes_equal(b"abc", b"ab"));
    assert!(bytes_equal(b"", b""));
}
