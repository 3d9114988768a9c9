//! The lobby: games, their players, and what the server does with one
//! datagram.
//!
//! A request is `[packet id: u16][opcode: u8][payload]`. A one-byte
//! datagram holding `1` is a ping, answered with the same byte. Creating
//! and joining a game take `[name length: u8][name]`; the answer starts with
//! the request's packet id and an opcode of `out_op`, then holds the player
//! id (on success) or a length-prefixed message (on error).
use vstd::prelude::*;
use vstd::utf8::valid_utf8;
use crate::clock::precise_time_ns;
use crate::ops::{Packet, in_op, out_op};
use crate::text::{
    lemma_message_lengths, bytes_equal, is_utf8, msg_name_too_long, msg_invalid_name,
    msg_name_taken, msg_server_full, msg_no_such_game, msg_game_full, name_too_long_message,
    invalid_name_message, name_taken_message, server_full_message, no_such_game_message,
    game_full_message,
};
use crate::wire::{Wire, splice, le2, from_le2, lemma_splice_then};

verus! {

/// How many games the server holds at most.
pub const MAX_GAMES: usize = 20;

/// How many bytes a game's name has at most.
pub const MAX_GAME_NAME_SIZE: usize = 15;

/// How many players a game holds at most.
pub const MAX_PLAYERS: usize = 10;

/// The size of the buffer that datagrams are received into.
pub const IN_BUF_SIZE: usize = 1024;

/// The size of the buffer that answers are written into.
pub const OUT_BUF_SIZE: usize = 1024;

/// The id of the player in slot `slot` of game `game_id`: the two bytes
/// `[game_id, slot]` read as a little-endian `u16`.
pub open spec fn player_id(game_id: u8, slot: u8) -> u16 {
    from_le2(seq![game_id, slot]) as u16
}

/// Index of the first empty slot of `s` at or after `from`, or `s.len()`.
pub open spec fn first_none<A>(s: Seq<Option<A>>, from: int) -> int
    decreases s.len() - from,
{
    if from < 0 || from >= s.len() {
        s.len() as int
    } else if s[from] is None {
        from
    } else {
        first_none(s, from + 1)
    }
}

/// Occupied slots come before empty ones.
pub open spec fn filled_in_order<A>(s: Seq<Option<A>>) -> bool {
    forall|j: int, k: int| 0 <= j <= k < s.len() && s[k] is Some ==> s[j] is Some
}

/// A player of a game, with the time it was last heard from.
#[derive(Clone, Copy)]
pub struct Player {
    pub id: u16,
    /// In nanoseconds.
    pub last_received_packet_at: u64,
}

impl Player {
    /// The player in slot `id` of game `game_id`, stamped with the current time.
    pub fn new(game_id: u8, id: u8) -> (p: Player)
        ensures
            p.id == player_id(game_id, id),
            p.id as int == game_id + 256 * id,
    {
        let id_parts: Vec<u8> = vec![game_id, id];
        let pid = <u16 as Wire>::read_at(&id_parts, 0);
        assert(id_parts@.subrange(0, 2) =~= seq![game_id, id]);
        Player { id: pid, last_received_packet_at: precise_time_ns() }
    }
}

/// The id held in a player slot.
pub open spec fn slot_view(p: Option<Player>) -> Option<u16> {
    match p {
        Some(p) => Some(p.id),
        None => None,
    }
}

/// A game: its index on the server, its name and its player slots.
pub struct Game {
    pub id: u8,
    pub name: Vec<u8>,
    pub players: Vec<Option<Player>>,
}

/// A game as the contracts see it: the ids of its players, not when they
/// were last heard from.
#[verifier::ext_equal]
pub struct GameView {
    pub id: u8,
    pub name: Seq<u8>,
    pub players: Seq<Option<u16>>,
}

impl View for Game {
    type V = GameView;

    open spec fn view(&self) -> GameView {
        GameView {
            id: self.id,
            name: self.name@,
            players: self.players@.map_values(|p: Option<Player>| slot_view(p)),
        }
    }
}

/// A game just created: its host in slot 0, the other slots empty.
pub open spec fn new_game_view(id: u8, name: Seq<u8>) -> GameView {
    GameView {
        id: id,
        name: name,
        players: Seq::new(
            MAX_PLAYERS as nat,
            |k: int|
                if k == 0 {
                    Some(player_id(id, 0))
                } else {
                    None
                },
        ),
    }
}

impl Game {
    /// A game with index `id` and name `name`, hosted by a new player in slot 0.
    pub fn new(id: u8, name: Vec<u8>) -> (g: Game)
        ensures
            g@ == new_game_view(id, name@),
    {
        let mut players: Vec<Option<Player>> = Vec::new();
        let mut k: usize = 0;
        while k < MAX_PLAYERS
            invariant
                0 <= k <= MAX_PLAYERS,
                players@.len() == k,
                forall|j: int| 0 <= j < k ==> players@[j] is None,
            decreases MAX_PLAYERS - k,
        {
            players.push(None);
            k = k + 1;
        }
        players.set(0, Some(Player::new(id, 0)));
        let g = Game { id: id, name: name, players: players };
        assert(g@.players =~= new_game_view(id, name@).players);
        g
    }
}

/// The games of a server, slot by slot.
pub open spec fn games_view(games: Seq<Option<Game>>) -> Seq<Option<GameView>> {
    games.map_values(
        |g: Option<Game>|
            match g {
                Some(g) => Some(g@),
                None => None,
            },
    )
}

/// The state of the server: at most `MAX_GAMES` games.
pub struct Server {
    pub games: Vec<Option<Game>>,
}

impl View for Server {
    type V = Seq<Option<GameView>>;

    open spec fn view(&self) -> Seq<Option<GameView>> {
        games_view(self.games@)
    }
}

/// A well-formed game in slot `i`.
pub open spec fn game_wf(g: GameView, i: int) -> bool {
    &&& g.id == i
    &&& g.name.len() <= MAX_GAME_NAME_SIZE
    &&& valid_utf8(g.name)
    &&& g.players.len() == MAX_PLAYERS
    &&& g.players[0] is Some
    &&& filled_in_order(g.players)
    &&& forall|k: int|
        0 <= k < MAX_PLAYERS && #[trigger] g.players[k] is Some ==> g.players[k] == Some(
            player_id(i as u8, k as u8),
        )
}

/// The invariant of the server: `MAX_GAMES` slots, filled in order, each
/// game well formed, and no two games with the same name.
pub open spec fn server_wf(s: Seq<Option<GameView>>) -> bool {
    &&& s.len() == MAX_GAMES
    &&& filled_in_order(s)
    &&& forall|i: int| 0 <= i < s.len() && #[trigger] s[i] is Some ==> game_wf(s[i]->0, i)
    &&& forall|i: int, j: int|
        0 <= i < j < s.len() && #[trigger] s[i] is Some && #[trigger] s[j] is Some
            ==> s[i]->0.name != s[j]->0.name
}

/// Index of the game named `name`, looking from `from` up to the first empty
/// slot, or `s.len()` where there is none.
pub open spec fn find_named(s: Seq<Option<GameView>>, name: Seq<u8>, from: int) -> int
    decreases s.len() - from,
{
    if from < 0 || from >= s.len() {
        s.len() as int
    } else {
        match s[from] {
            None => s.len() as int,
            Some(g) => if g.name == name {
                from
            } else {
                find_named(s, name, from + 1)
            },
        }
    }
}

/// An error answer: packet id, `ERROR`, message length and message.
pub open spec fn error_reply(packet_id: u16, msg: Seq<u8>) -> Seq<u8> {
    le2(packet_id as int) + seq![out_op::ERROR] + le2((msg.len() as u16) as int) + msg
}

/// A success answer: packet id, opcode and player id.
pub open spec fn player_reply(packet_id: u16, op: u8, player: u16) -> Seq<u8> {
    le2(packet_id as int) + seq![op] + le2(player as int)
}

/// The name that a create or join payload at `pos` of `buf` carries.
pub open spec fn request_name(buf: Seq<u8>, pos: int) -> Seq<u8> {
    buf.subrange(pos + 1, pos + 1 + buf[pos])
}

/// The payload at `pos` of `buf` can be read: its length byte, and the name
/// where the length is within the limit.
pub open spec fn payload_readable(buf: Seq<u8>, pos: int) -> bool {
    &&& pos + 1 <= buf.len()
    &&& buf[pos] <= MAX_GAME_NAME_SIZE ==> pos + 1 + buf[pos] <= buf.len()
}

/// What creating a game does: the new games and the answer.
pub open spec fn create_spec(s: Seq<Option<GameView>>, packet_id: u16, buf: Seq<u8>, pos: int) -> (
    Seq<Option<GameView>>,
    Seq<u8>,
) {
    let name = request_name(buf, pos);
    if buf[pos] > MAX_GAME_NAME_SIZE {
        (s, error_reply(packet_id, msg_name_too_long()))
    } else if !valid_utf8(name) {
        (s, error_reply(packet_id, msg_invalid_name()))
    } else if find_named(s, name, 0) < s.len() {
        (s, error_reply(packet_id, msg_name_taken(name)))
    } else if first_none(s, 0) >= s.len() {
        (s, error_reply(packet_id, msg_server_full()))
    } else {
        let i = first_none(s, 0);
        (
            s.update(i, Some(new_game_view(i as u8, name))),
            player_reply(packet_id, out_op::GAME_CREATED, player_id(i as u8, 0)),
        )
    }
}

/// The game `g` with player `p` in slot `k`.
pub open spec fn with_player(g: GameView, k: int, p: u16) -> GameView {
    GameView { id: g.id, name: g.name, players: g.players.update(k, Some(p)) }
}

/// What joining a game does: the new games and the answer.
pub open spec fn join_spec(s: Seq<Option<GameView>>, packet_id: u16, buf: Seq<u8>, pos: int) -> (
    Seq<Option<GameView>>,
    Seq<u8>,
) {
    let name = request_name(buf, pos);
    let j = find_named(s, name, 0);
    if buf[pos] > MAX_GAME_NAME_SIZE {
        (s, error_reply(packet_id, msg_name_too_long()))
    } else if !valid_utf8(name) {
        (s, error_reply(packet_id, msg_invalid_name()))
    } else if j >= s.len() {
        (s, error_reply(packet_id, msg_no_such_game(name)))
    } else {
        let g = s[j]->0;
        let k = first_none(g.players, 0);
        if k >= g.players.len() {
            (s, error_reply(packet_id, msg_game_full()))
        } else {
            let p = player_id(g.id, k as u8);
            (s.update(j, Some(with_player(g, k, p))), player_reply(packet_id, out_op::GAME_JOINED, p))
        }
    }
}

/// A request, its parsed header, and the packet its answer is written to.
pub struct PacketInfo {
    pub packet_id: u16,
    pub opcode: u8,
    pub len: usize,
    pub request: Packet,
    pub response: Packet,
}

impl PacketInfo {
    /// The request and the response packets, to work on both at once.
    pub fn packets(&mut self) -> (r: (&mut Packet, &mut Packet))
        ensures
            *r.0 == old(self).request,
            *r.1 == old(self).response,
            final(self).request == *final(r.0),
            final(self).response == *final(r.1),
            final(self).packet_id == old(self).packet_id,
            final(self).opcode == old(self).opcode,
            final(self).len == old(self).len,
    {
        (&mut self.request, &mut self.response)
    }
}

/// Where a game of a given name is, or where a new one would go.
pub enum Lookup {
    /// The game in this slot has the name.
    Taken(usize),
    /// No game has the name; this slot is the first empty one.
    Free(usize),
    /// No game has the name and no slot is empty.
    Full,
}

/// Looks through the games in order up to the first empty slot.
pub fn lookup(games: &Vec<Option<Game>>, name: &[u8]) -> (r: Lookup)
    ensures
        match r {
            Lookup::Taken(j) => j == find_named(games_view(games@), name@, 0) && j
                < games@.len(),
            Lookup::Free(i) => find_named(games_view(games@), name@, 0) == games@.len() && i
                == first_none(games_view(games@), 0) && i < games@.len(),
            Lookup::Full => find_named(games_view(games@), name@, 0) == games@.len()
                && first_none(games_view(games@), 0) == games@.len(),
        },
{
    let ghost s = games_view(games@);
    let mut i: usize = 0;
    while i < games.len()
        invariant
            s == games_view(games@),
            0 <= i <= games@.len(),
            find_named(s, name@, 0) == find_named(s, name@, i as int),
            first_none(s, 0) == first_none(s, i as int),
        decreases games@.len() - i,
    {
        match &games[i] {
            None => {
                return Lookup::Free(i);
            },
            Some(g) => {
                if bytes_equal(g.name.as_slice(), name) {
                    return Lookup::Taken(i);
                }
            },
        }
        i = i + 1;
    }
    Lookup::Full
}

/// Writes an error answer with `message` to the response packet.
pub fn error_response(packet: &mut PacketInfo, message: &[u8])
    requires
        old(packet).response.pos + 5 + message@.len() <= old(packet).response.buf.len(),
    ensures
        final(packet).response.buf@ == splice(
            old(packet).response.buf@,
            old(packet).response.pos as int,
            error_reply(old(packet).packet_id, message@),
        ),
        final(packet).response.pos == old(packet).response.pos + error_reply(
            old(packet).packet_id,
            message@,
        ).len(),
        final(packet).request == old(packet).request,
        final(packet).packet_id == old(packet).packet_id,
        final(packet).opcode == old(packet).opcode,
        final(packet).len == old(packet).len,
{
    let ghost b0 = packet.response.buf@;
    let ghost p0 = packet.response.pos as int;
    let packet_id = packet.packet_id;
    let op = out_op::ERROR;
    let message_len = message.len() as u16;
    packet.response.push(&packet_id);
    packet.response.push(&op);
    packet.response.push(&message_len);
    packet.response.push_slice(message);
    proof {
        let a = le2(packet_id as int);
        let b = seq![op];
        let c = le2(message_len as int);
        lemma_splice_then(b0, p0, a, b);
        lemma_splice_then(b0, p0, a + b, c);
        lemma_splice_then(b0, p0, a + b + c, message@);
    }
}

/// Writes a success answer to the response packet.
fn player_response(packet: &mut PacketInfo, op: u8, player: u16)
    requires
        old(packet).response.pos + 5 <= old(packet).response.buf.len(),
    ensures
        final(packet).response.buf@ == splice(
            old(packet).response.buf@,
            old(packet).response.pos as int,
            player_reply(old(packet).packet_id, op, player),
        ),
        final(packet).response.pos == old(packet).response.pos + 5,
        final(packet).request == old(packet).request,
        final(packet).packet_id == old(packet).packet_id,
        final(packet).opcode == old(packet).opcode,
        final(packet).len == old(packet).len,
{
    let ghost b0 = packet.response.buf@;
    let ghost p0 = packet.response.pos as int;
    let packet_id = packet.packet_id;
    packet.response.push(&packet_id);
    packet.response.push(&op);
    packet.response.push(&player);
    proof {
        let a = le2(packet_id as int);
        let b = seq![op];
        lemma_splice_then(b0, p0, a, b);
        lemma_splice_then(b0, p0, a + b, le2(player as int));
    }
}

/// Facts about `first_none`: the slots before it are occupied, and it is
/// empty where it is within bounds.
pub proof fn lemma_first_none<A>(s: Seq<Option<A>>, from: int)
    requires
        0 <= from <= s.len(),
    ensures
        from <= first_none(s, from) <= s.len(),
        forall|j: int| from <= j < first_none(s, from) ==> s[j] is Some,
        first_none(s, from) < s.len() ==> s[first_none(s, from)] is None,
    decreases s.len() - from,
{
    if from < s.len() && s[from] is Some {
        lemma_first_none(s, from + 1);
    }
}

/// Facts about `find_named`: where it finds a game, that game has the name;
/// where it finds none, no game before the first empty slot has it.
pub proof fn lemma_find_named(s: Seq<Option<GameView>>, name: Seq<u8>, from: int)
    requires
        0 <= from <= s.len(),
    ensures
        from <= find_named(s, name, from) <= s.len(),
        find_named(s, name, from) < s.len() ==> s[find_named(s, name, from)] is Some && s[find_named(
            s,
            name,
            from,
        )]->0.name == name,
        find_named(s, name, from) == s.len() ==> forall|j: int|
            from <= j < first_none(s, from) ==> s[j]->0.name != name,
        find_named(s, name, from) < s.len() ==> find_named(s, name, from) < first_none(s, from),
    decreases s.len() - from,
{
    lemma_first_none(s, from);
    if from < s.len() {
        match s[from] {
            None => {},
            Some(g) => {
                if g.name != name {
                    lemma_find_named(s, name, from + 1);
                }
            },
        }
    }
}

/// In a well-formed server, `find_named` finds the game of that name if
/// there is one.
pub proof fn lemma_find_named_wf(s: Seq<Option<GameView>>, name: Seq<u8>)
    requires
        server_wf(s),
    ensures
        find_named(s, name, 0) < s.len() <==> exists|j: int|
            0 <= j < s.len() && s[j] is Some && #[trigger] s[j]->0.name == name,
{
    lemma_find_named(s, name, 0);
    lemma_first_none(s, 0);
    if exists|j: int| 0 <= j < s.len() && s[j] is Some && #[trigger] s[j]->0.name == name {
        let j = choose|j: int| 0 <= j < s.len() && s[j] is Some && #[trigger] s[j]->0.name == name;
        if find_named(s, name, 0) == s.len() {
            if j >= first_none(s, 0) {
                assert(s[first_none(s, 0)] is None);
                assert(false);
            }
        }
    }
}

/// Creating a game keeps the server well formed.
pub proof fn lemma_create_keeps_wf(s: Seq<Option<GameView>>, packet_id: u16, buf: Seq<u8>, pos: int)
    requires
        server_wf(s),
        0 <= pos,
        payload_readable(buf, pos),
    ensures
        server_wf(create_spec(s, packet_id, buf, pos).0),
{
    let name = request_name(buf, pos);
    lemma_first_none(s, 0);
    lemma_find_named(s, name, 0);
    if buf[pos] <= MAX_GAME_NAME_SIZE && valid_utf8(name) && find_named(s, name, 0) == s.len()
        && first_none(s, 0) < s.len() {
        let i = first_none(s, 0);
        let g = new_game_view(i as u8, name);
        let t = s.update(i, Some(g));
        assert(game_wf(g, i));
        assert forall|j: int, k: int| 0 <= j <= k < t.len() && t[k] is Some implies t[j] is Some by {
            if k != i && j != i {
                assert(s[k] is Some);
            }
        }
        assert forall|a: int, b: int|
            0 <= a < b < t.len() && #[trigger] t[a] is Some && #[trigger] t[b] is Some
            implies t[a]->0.name != t[b]->0.name by {
            if b == i {
                assert(s[a] is Some);
            } else if a == i {
                assert(s[b] is Some);
                assert(s[i] is Some);
            }
        }
    }
}

/// Joining a game keeps the server well formed.
pub proof fn lemma_join_keeps_wf(s: Seq<Option<GameView>>, packet_id: u16, buf: Seq<u8>, pos: int)
    requires
        server_wf(s),
        0 <= pos,
        payload_readable(buf, pos),
    ensures
        server_wf(join_spec(s, packet_id, buf, pos).0),
{
    let name = request_name(buf, pos);
    lemma_find_named(s, name, 0);
    let j = find_named(s, name, 0);
    if buf[pos] <= MAX_GAME_NAME_SIZE && valid_utf8(name) && j < s.len() {
        let g = s[j]->0;
        assert(game_wf(g, j));
        lemma_first_none(g.players, 0);
        let k = first_none(g.players, 0);
        if k < g.players.len() {
            let p = player_id(g.id, k as u8);
            let h = with_player(g, k, p);
            let t = s.update(j, Some(h));
            assert forall|a: int, b: int| 0 <= a <= b < h.players.len() && h.players[b] is Some
                implies h.players[a] is Some by {
                if b != k && a != k {
                    assert(g.players[b] is Some);
                }
            }
            assert(game_wf(h, j));
            assert forall|a: int, b: int| 0 <= a <= b < t.len() && t[b] is Some implies t[a] is Some by {
                if a != j && b != j {
                    assert(s[b] is Some);
                } else if b == j && a != j {
                    assert(s[j] is Some);
                }
            }
            assert forall|a: int|
                0 <= a < t.len() && #[trigger] t[a] is Some implies game_wf(t[a]->0, a) by {
                if a != j {
                    assert(s[a] is Some);
                }
            }
            assert forall|a: int, b: int|
                0 <= a < b < t.len() && #[trigger] t[a] is Some && #[trigger] t[b] is Some
                implies t[a]->0.name != t[b]->0.name by {
                assert(s[a] is Some);
                assert(s[b] is Some);
            }
        }
    }
}

/// The first empty player slot of a game.
fn free_player_slot(players: &Vec<Option<Player>>) -> (k: usize)
    ensures
        k == first_none(players@.map_values(|p: Option<Player>| slot_view(p)), 0),
{
    let ghost v = players@.map_values(|p: Option<Player>| slot_view(p));
    let mut k: usize = 0;
    while k < players.len()
        invariant
            v == players@.map_values(|p: Option<Player>| slot_view(p)),
            0 <= k <= players@.len(),
            first_none(v, 0) == first_none(v, k as int),
        decreases players@.len() - k,
    {
        if players[k].is_none() {
            return k;
        }
        k = k + 1;
    }
    k
}

/// Creates the game that the request names: answers with the host's
/// player id, or with an error where the name is too long, not UTF-8 or
/// taken, or the server is full.
pub fn create_game(server: &mut Server, packet: &mut PacketInfo)
    requires
        server_wf(old(server)@),
        payload_readable(old(packet).request.buf@, old(packet).request.pos as int),
        old(packet).response.pos + create_spec(
            old(server)@,
            old(packet).packet_id,
            old(packet).request.buf@,
            old(packet).request.pos as int,
        ).1.len() <= old(packet).response.buf.len(),
    ensures
        final(server)@ == create_spec(
            old(server)@,
            old(packet).packet_id,
            old(packet).request.buf@,
            old(packet).request.pos as int,
        ).0,
        server_wf(final(server)@),
        final(packet).response.buf@ == splice(
            old(packet).response.buf@,
            old(packet).response.pos as int,
            create_spec(
                old(server)@,
                old(packet).packet_id,
                old(packet).request.buf@,
                old(packet).request.pos as int,
            ).1,
        ),
        final(packet).response.pos == old(packet).response.pos + create_spec(
            old(server)@,
            old(packet).packet_id,
            old(packet).request.buf@,
            old(packet).request.pos as int,
        ).1.len(),
        final(packet).request.buf@ == old(packet).request.buf@,
        final(packet).packet_id == old(packet).packet_id,
        final(packet).opcode == old(packet).opcode,
        final(packet).len == old(packet).len,
{
    proof {
        lemma_create_keeps_wf(
            server@,
            packet.packet_id,
            packet.request.buf@,
            packet.request.pos as int,
        );
    }
    let ghost s = server@;
    let ghost b = packet.request.buf@;
    let ghost p = packet.request.pos as int;
    let name_len = packet.request.pull::<u8>() as usize;
    if name_len > MAX_GAME_NAME_SIZE {
        error_response(packet, name_too_long_message());
        return;
    }
    let name = packet.request.peek_slice(name_len);
    assert(name@ == request_name(b, p));
    if !is_utf8(name.as_slice()) {
        error_response(packet, invalid_name_message());
        return;
    }
    match lookup(&server.games, name.as_slice()) {
        Lookup::Taken(_) => {
            let msg = name_taken_message(name.as_slice());
            error_response(packet, msg.as_slice());
        },
        Lookup::Full => {
            error_response(packet, server_full_message());
        },
        Lookup::Free(index) => {
            let game = Game::new(index as u8, name);
            assert(game@.players[0] is Some);
            assert(game.players@.len() == game@.players.len());
            assert(slot_view(game.players@[0]) == game@.players[0]);
            let host_id = match &game.players[0] {
                Some(host) => host.id,
                None => {
                    assert(false);
                    0
                },
            };
            server.games.set(index, Some(game));
            assert(server@ =~= s.update(index as int, Some(new_game_view(index as u8, name@))));
            player_response(packet, out_op::GAME_CREATED, host_id);
        },
    }
}

/// Adds a player to the game that the request names: answers with the new
/// player's id, or with an error where the name is too long or not UTF-8,
/// no game has it, or the game is full.
pub fn join_game(server: &mut Server, packet: &mut PacketInfo)
    requires
        server_wf(old(server)@),
        payload_readable(old(packet).request.buf@, old(packet).request.pos as int),
        old(packet).response.pos + join_spec(
            old(server)@,
            old(packet).packet_id,
            old(packet).request.buf@,
            old(packet).request.pos as int,
        ).1.len() <= old(packet).response.buf.len(),
    ensures
        final(server)@ == join_spec(
            old(server)@,
            old(packet).packet_id,
            old(packet).request.buf@,
            old(packet).request.pos as int,
        ).0,
        server_wf(final(server)@),
        final(packet).response.buf@ == splice(
            old(packet).response.buf@,
            old(packet).response.pos as int,
            join_spec(
                old(server)@,
                old(packet).packet_id,
                old(packet).request.buf@,
                old(packet).request.pos as int,
            ).1,
        ),
        final(packet).response.pos == old(packet).response.pos + join_spec(
            old(server)@,
            old(packet).packet_id,
            old(packet).request.buf@,
            old(packet).request.pos as int,
        ).1.len(),
        final(packet).request.buf@ == old(packet).request.buf@,
        final(packet).packet_id == old(packet).packet_id,
        final(packet).opcode == old(packet).opcode,
        final(packet).len == old(packet).len,
{
    proof {
        lemma_join_keeps_wf(
            server@,
            packet.packet_id,
            packet.request.buf@,
            packet.request.pos as int,
        );
    }
    let ghost s = server@;
    let ghost b = packet.request.buf@;
    let ghost p = packet.request.pos as int;
    let name_len = packet.request.pull::<u8>() as usize;
    if name_len > MAX_GAME_NAME_SIZE {
        error_response(packet, name_too_long_message());
        return;
    }
    let name = packet.request.peek_slice(name_len);
    assert(name@ == request_name(b, p));
    if !is_utf8(name.as_slice()) {
        error_response(packet, invalid_name_message());
        return;
    }
    match lookup(&server.games, name.as_slice()) {
        Lookup::Taken(j) => {
            proof {
                lemma_find_named(s, name@, 0);
            }
            let ghost g = s[j as int]->0;
            let (game_id, k) = match &server.games[j] {
                Some(game) => (game.id, free_player_slot(&game.players)),
                None => {
                    assert(false);
                    (0, 0)
                },
            };
            assert(g.id == game_id);
            if k >= MAX_PLAYERS {
                error_response(packet, game_full_message());
                return;
            }
            proof {
                lemma_first_none(g.players, 0);
            }
            let player = Player::new(game_id, k as u8);
            let player_id = player.id;
            match &mut server.games[j] {
                Some(game) => {
                    game.players.set(k, Some(player));
                },
                None => {},
            }
            assert(server.games@[j as int]->0@.players =~= g.players.update(k as int, Some(player_id)));
            assert(server.games@[j as int]->0@ =~= with_player(g, k as int, player_id));
            assert(server@ =~= s.update(j as int, Some(with_player(g, k as int, player_id))));
            player_response(packet, out_op::GAME_JOINED, player_id);
        },
        _ => {
            let msg = no_such_game_message(name.as_slice());
            error_response(packet, msg.as_slice());
        },
    }
}

/// Every answer to a create or join request fits in 50 bytes.
pub proof fn lemma_reply_fits(s: Seq<Option<GameView>>, packet_id: u16, buf: Seq<u8>, pos: int)
    requires
        0 <= pos,
        payload_readable(buf, pos),
    ensures
        create_spec(s, packet_id, buf, pos).1.len() <= 50,
        join_spec(s, packet_id, buf, pos).1.len() <= 50,
{
    lemma_message_lengths();
}

/// What the server did with a datagram, with the answer to send, if any.
pub enum Handled {
    /// A ping, answered with `reply`.
    Pong { reply: Vec<u8> },
    /// Too short to hold a request header; not answered.
    TooShort,
    /// A request with an opcode that names no operation; not answered.
    UnknownOp { packet_id: u16, opcode: u8 },
    /// A request that was carried out and answered with `reply`.
    Answered { packet_id: u16, opcode: u8, reply: Vec<u8> },
}

/// `Handled` as the contracts see it.
pub enum HandledView {
    Pong(Seq<u8>),
    TooShort,
    UnknownOp(u16, u8),
    Answered(u16, u8, Seq<u8>),
}

impl View for Handled {
    type V = HandledView;

    open spec fn view(&self) -> HandledView {
        match self {
            Handled::Pong { reply } => HandledView::Pong(reply@),
            Handled::TooShort => HandledView::TooShort,
            Handled::UnknownOp { packet_id, opcode } => HandledView::UnknownOp(*packet_id, *opcode),
            Handled::Answered { packet_id, opcode, reply } => HandledView::Answered(
                *packet_id,
                *opcode,
                reply@,
            ),
        }
    }
}

/// The packet id of a request: its first two bytes, little-endian.
pub open spec fn request_packet_id(buf: Seq<u8>) -> u16 {
    from_le2(buf) as u16
}

/// The opcodes that the dispatch table has an entry for.
pub open spec fn dispatchable(buf: Seq<u8>, len: int) -> bool {
    len >= 3 ==> buf[2] < 255
}

/// What the server does with a datagram of `len` bytes received into `buf`:
/// the new games and what it did.
pub open spec fn handle_spec(s: Seq<Option<GameView>>, buf: Seq<u8>, len: int) -> (
    Seq<Option<GameView>>,
    HandledView,
) {
    if len == 1 && buf[0] == 1 {
        (s, HandledView::Pong(seq![1u8]))
    } else if len < 3 {
        (s, HandledView::TooShort)
    } else {
        let packet_id = request_packet_id(buf);
        let opcode = buf[2];
        if opcode == in_op::NEW_GAME {
            let r = create_spec(s, packet_id, buf, 3);
            (r.0, HandledView::Answered(packet_id, opcode, r.1))
        } else if opcode == in_op::JOIN_GAME {
            let r = join_spec(s, packet_id, buf, 3);
            (r.0, HandledView::Answered(packet_id, opcode, r.1))
        } else {
            (s, HandledView::UnknownOp(packet_id, opcode))
        }
    }
}

impl Server {
    /// A server with no games.
    pub fn new() -> (server: Server)
        ensures
            server@ == Seq::new(MAX_GAMES as nat, |i: int| None::<GameView>),
            server_wf(server@),
    {
        let mut games: Vec<Option<Game>> = Vec::new();
        let mut i: usize = 0;
        while i < MAX_GAMES
            invariant
                0 <= i <= MAX_GAMES,
                games@.len() == i,
                forall|j: int| 0 <= j < i ==> games@[j] is None,
            decreases MAX_GAMES - i,
        {
            games.push(None);
            i = i + 1;
        }
        let server = Server { games: games };
        assert(server@ =~= Seq::new(MAX_GAMES as nat, |i: int| None::<GameView>));
        server
    }

    /// Handles a datagram of `len` bytes received into `in_buf`: answers a
    /// ping, ignores what is too short or names no operation, and carries
    /// out a create or join request.
    pub fn handle_datagram(&mut self, in_buf: &Vec<u8>, len: usize) -> (h: Handled)
        requires
            server_wf(old(self)@),
            in_buf.len() == IN_BUF_SIZE,
            len <= IN_BUF_SIZE,
            dispatchable(in_buf@, len as int),
        ensures
            final(self)@ == handle_spec(old(self)@, in_buf@, len as int).0,
            h@ == handle_spec(old(self)@, in_buf@, len as int).1,
            server_wf(final(self)@),
    {
        if len == 1 && in_buf[0] == 1 {
            let reply: Vec<u8> = vec![1u8];
            assert(reply@ =~= seq![1u8]);
            return Handled::Pong { reply: reply };
        }
        if len < 3 {
            return Handled::TooShort;
        }
        let ghost s = self@;
        let mut request = Packet::new(in_buf.clone());
        let response = Packet::new(vec![0u8; OUT_BUF_SIZE]);
        let packet_id: u16 = request.pull();
        let opcode: u8 = request.pull();
        assert(in_buf@.subrange(0, 2)[0] == in_buf@[0] && in_buf@.subrange(0, 2)[1] == in_buf@[1]);
        assert(packet_id == request_packet_id(in_buf@));
        assert(opcode == in_buf@[2]);
        let mut packet_info = PacketInfo {
            packet_id: packet_id,
            opcode: opcode,
            len: len,
            request: request,
            response: response,
        };
        proof {
            lemma_reply_fits(s, packet_id, in_buf@, 3);
        }
        if opcode == in_op::NEW_GAME {
            create_game(self, &mut packet_info);
        } else if opcode == in_op::JOIN_GAME {
            join_game(self, &mut packet_info);
        } else {
            return Handled::UnknownOp { packet_id: packet_id, opcode: opcode };
        }
        let mut reply = packet_info.response.buf;
        reply.truncate(packet_info.response.pos);
        proof {
            if opcode == in_op::NEW_GAME {
                assert(reply@ =~= create_spec(s, packet_id, in_buf@, 3).1);
            } else {
                assert(reply@ =~= join_spec(s, packet_id, in_buf@, 3).1);
            }
        }
        Handled::Answered { packet_id: packet_id, opcode: opcode, reply: reply }
    }
}

} // verus!
