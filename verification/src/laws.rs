//! Properties of the library as a whole, over the contracts' models.
use vstd::prelude::*;
use vstd::utf8::valid_utf8;
use crate::ops::{in_op, out_op};
use crate::server::{
    HandledView, MAX_PLAYERS,
    GameView, server_wf, game_wf, create_spec, join_spec, handle_spec, request_name,
    payload_readable, player_id, player_reply, error_reply, first_none, find_named,
    lemma_first_none, lemma_find_named, lemma_create_keeps_wf, lemma_join_keeps_wf,
    request_packet_id,
};
use crate::text::msg_name_taken;
use crate::wire::{Wire, splice};

verus! {

/// What is pushed at a position is what a pull at that position gives back.
pub proof fn lemma_pull_after_push<T: Wire>(buf: Seq<u8>, pos: int, v: T)
    requires
        0 <= pos,
        pos + T::wire_size() <= buf.len(),
    ensures
        T::from_wire_bytes(splice(buf, pos, v.wire_bytes()).subrange(pos, pos + T::wire_size())) == v,
{
    v.lemma_wire_roundtrip();
    assert(splice(buf, pos, v.wire_bytes()).subrange(pos, pos + T::wire_size()) =~= v.wire_bytes());
}

/// Distinct slots of distinct games give distinct player ids.
pub proof fn lemma_player_id_injective(g1: u8, k1: u8, g2: u8, k2: u8)
    requires
        player_id(g1, k1) == player_id(g2, k2),
    ensures
        g1 == g2,
        k1 == k2,
{
}

/// In a well-formed server no two players share an id.
pub proof fn lemma_player_ids_distinct(s: Seq<Option<GameView>>, i: int, k: int, j: int, l: int)
    requires
        server_wf(s),
        0 <= i < s.len(),
        0 <= j < s.len(),
        s[i] is Some,
        s[j] is Some,
        0 <= k < s[i]->0.players.len(),
        0 <= l < s[j]->0.players.len(),
        s[i]->0.players[k] is Some,
        s[j]->0.players[l] is Some,
        i != j || k != l,
    ensures
        s[i]->0.players[k] != s[j]->0.players[l],
{
    assert(game_wf(s[i]->0, i));
    assert(game_wf(s[j]->0, j));
    if s[i]->0.players[k] == s[j]->0.players[l] {
        lemma_player_id_injective(i as u8, k as u8, j as u8, l as u8);
    }
}

/// Every datagram keeps the server well formed.
pub proof fn lemma_handle_keeps_wf(s: Seq<Option<GameView>>, buf: Seq<u8>, len: int)
    requires
        server_wf(s),
        buf.len() >= 19,
    ensures
        server_wf(handle_spec(s, buf, len).0),
{
    lemma_create_keeps_wf(s, request_packet_id(buf), buf, 3);
    lemma_join_keeps_wf(s, request_packet_id(buf), buf, 3);
}

/// A refused request changes nothing: where the answer to a create or a
/// join is an error, the games are as they were.
pub proof fn lemma_refusal_changes_nothing(s: Seq<Option<GameView>>, packet_id: u16, buf: Seq<u8>, pos: int)
    ensures
        create_spec(s, packet_id, buf, pos).1[2] == out_op::ERROR ==> create_spec(s, packet_id, buf, pos).0 == s,
        join_spec(s, packet_id, buf, pos).1[2] == out_op::ERROR ==> join_spec(s, packet_id, buf, pos).0 == s,
{
}

/// Games are never removed: a game in a slot keeps its slot, id and name
/// whatever datagram comes in.
pub proof fn lemma_games_stay(s: Seq<Option<GameView>>, buf: Seq<u8>, len: int, i: int)
    requires
        server_wf(s),
        buf.len() >= 19,
        0 <= i < s.len(),
        s[i] is Some,
    ensures
        handle_spec(s, buf, len).0[i] is Some,
        handle_spec(s, buf, len).0[i]->0.id == s[i]->0.id,
        handle_spec(s, buf, len).0[i]->0.name == s[i]->0.name,
{
    lemma_first_none(s, 0);
    lemma_find_named(s, request_name(buf, 3), 0);
}

/// Two games cannot have the same name: once a create is answered
/// `GAME_CREATED`, a create of the same name is answered with the
/// "already taken" error and changes nothing.
pub proof fn lemma_same_name_refused(
    s: Seq<Option<GameView>>,
    id1: u16,
    buf1: Seq<u8>,
    pos1: int,
    id2: u16,
    buf2: Seq<u8>,
    pos2: int,
)
    requires
        server_wf(s),
        0 <= pos1,
        0 <= pos2,
        payload_readable(buf1, pos1),
        payload_readable(buf2, pos2),
        create_spec(s, id1, buf1, pos1).1[2] == out_op::GAME_CREATED,
        buf2[pos2] == buf1[pos1],
        request_name(buf2, pos2) == request_name(buf1, pos1),
    ensures
        create_spec(create_spec(s, id1, buf1, pos1).0, id2, buf2, pos2) == (
            create_spec(s, id1, buf1, pos1).0,
            error_reply(id2, msg_name_taken(request_name(buf1, pos1))),
        ),
{
    let name = request_name(buf1, pos1);
    lemma_first_none(s, 0);
    lemma_find_named(s, name, 0);
    let i = first_none(s, 0);
    let t = create_spec(s, id1, buf1, pos1).0;
    lemma_create_keeps_wf(s, id1, buf1, pos1);
    lemma_first_none(t, 0);
    lemma_find_named(t, name, 0);
    assert(t[i] is Some && t[i]->0.name == name);
    if find_named(t, name, 0) == t.len() {
        assert(i < first_none(t, 0));
    }
}

/// A game can be joined once created: after a create is answered
/// `GAME_CREATED`, a join of the same name is answered `GAME_JOINED` with
/// the id of the game's second slot.
pub proof fn lemma_join_after_create(
    s: Seq<Option<GameView>>,
    id1: u16,
    buf1: Seq<u8>,
    pos1: int,
    id2: u16,
    buf2: Seq<u8>,
    pos2: int,
)
    requires
        server_wf(s),
        0 <= pos1,
        0 <= pos2,
        payload_readable(buf1, pos1),
        payload_readable(buf2, pos2),
        create_spec(s, id1, buf1, pos1).1[2] == out_op::GAME_CREATED,
        buf2[pos2] == buf1[pos1],
        request_name(buf2, pos2) == request_name(buf1, pos1),
    ensures
        join_spec(create_spec(s, id1, buf1, pos1).0, id2, buf2, pos2).1 == player_reply(
            id2,
            out_op::GAME_JOINED,
            player_id(first_none(s, 0) as u8, 1),
        ),
{
    let name = request_name(buf1, pos1);
    lemma_first_none(s, 0);
    lemma_find_named(s, name, 0);
    let i = first_none(s, 0);
    let t = create_spec(s, id1, buf1, pos1).0;
    lemma_create_keeps_wf(s, id1, buf1, pos1);
    lemma_first_none(t, 0);
    lemma_find_named(t, name, 0);
    assert(t[i] is Some && t[i]->0.name == name);
    if find_named(t, name, 0) == t.len() {
        assert(i < first_none(t, 0));
    }
    let j = find_named(t, name, 0);
    if j != i {
        assert(t[j] is Some);
        assert(server_wf(t));
    }
    assert(j == i);
    let g = t[i]->0;
    lemma_first_none(g.players, 0);
    assert(g.players[1] is None);
    assert(first_none(g.players, 1) == 1);
}

/// A 16-bit unsigned value is written low byte first, and two bytes are
/// read back as `low + 256 * high`.
pub proof fn lemma_u16_little_endian(v: u16, b: Seq<u8>)
    requires
        b.len() == 2,
    ensures
        v.wire_bytes() == seq![(v % 256) as u8, (v / 256) as u8],
        <u16 as Wire>::from_wire_bytes(b) as int == b[0] + 256 * b[1],
{
}

/// A 16-bit signed value is written as its two's-complement pattern, low
/// byte first; two bytes are read back as the value congruent to
/// `low + 256 * high` modulo 65536.
pub proof fn lemma_i16_twos_complement(v: i16, b: Seq<u8>)
    requires
        b.len() == 2,
    ensures
        v >= 0 ==> v.wire_bytes() == seq![(v % 256) as u8, (v / 256) as u8],
        v < 0 ==> v.wire_bytes() == seq![((v + 65536) % 256) as u8, ((v + 65536) / 256) as u8],
        ((<i16 as Wire>::from_wire_bytes(b) as int) - (b[0] + 256 * b[1])) % 65536 == 0,
{
}

/// The player in slot `k` of game `g` has id `g + 256 * k`.
pub proof fn lemma_player_id_value(g: u8, k: u8)
    ensures
        player_id(g, k) as int == g + 256 * k,
{
}

/// Every answer to a create or a join carries the request's packet id: the
/// full little-endian `u16` of the datagram's first two bytes, which are the
/// first two bytes of the answer.
pub proof fn lemma_answer_echoes_packet_id(s: Seq<Option<GameView>>, buf: Seq<u8>, len: int)
    requires
        buf.len() >= 19,
        3 <= len,
        buf[2] == in_op::NEW_GAME || buf[2] == in_op::JOIN_GAME,
    ensures
        handle_spec(s, buf, len).1 matches HandledView::Answered(id, op, reply) && id as int
            == buf[0] + 256 * buf[1] && op == buf[2] && reply.len() >= 5 && reply[0] == buf[0]
            && reply[1] == buf[1],
{
}

/// The first empty slot is the one after the occupied slots before it.
proof fn lemma_first_none_is<A>(s: Seq<Option<A>>, i: int)
    requires
        0 <= i < s.len(),
        s[i] is None,
        forall|j: int| 0 <= j < i ==> s[j] is Some,
    ensures
        first_none(s, 0) == i,
{
    lemma_first_none(s, 0);
    let f = first_none(s, 0);
    if f < i {
        assert(s[f] is Some);
    }
}

/// A create with a name of at most 15 bytes that is well-formed UTF-8 and
/// that no game has, on a server with an empty slot, puts a new game of that
/// name, hosted in its slot 0, in the first empty slot `i`, and is answered
/// with the packet id, `GAME_CREATED` and the host's id `i`.
pub proof fn lemma_create_fresh_name(s: Seq<Option<GameView>>, id: u16, buf: Seq<u8>, pos: int, i: int)
    requires
        0 <= pos,
        payload_readable(buf, pos),
        buf[pos] <= 15,
        valid_utf8(buf.subrange(pos + 1, pos + 1 + buf[pos])),
        forall|j: int|
            0 <= j < s.len() && #[trigger] s[j] is Some ==> s[j]->0.name != buf.subrange(
                pos + 1,
                pos + 1 + buf[pos],
            ),
        0 <= i < s.len() <= 256,
        s[i] is None,
        forall|j: int| 0 <= j < i ==> s[j] is Some,
    ensures
        create_spec(s, id, buf, pos).1 == seq![
            (id % 256) as u8,
            (id / 256) as u8,
            out_op::GAME_CREATED,
            i as u8,
            0u8,
        ],
        create_spec(s, id, buf, pos).0.len() == s.len(),
        forall|j: int| 0 <= j < s.len() && j != i ==> create_spec(s, id, buf, pos).0[j] == s[j],
        create_spec(s, id, buf, pos).0[i] is Some,
        create_spec(s, id, buf, pos).0[i]->0.id == i,
        create_spec(s, id, buf, pos).0[i]->0.name == buf.subrange(pos + 1, pos + 1 + buf[pos]),
        create_spec(s, id, buf, pos).0[i]->0.players.len() == MAX_PLAYERS,
        create_spec(s, id, buf, pos).0[i]->0.players[0] == Some(i as u16),
        forall|k: int|
            1 <= k < MAX_PLAYERS ==> create_spec(s, id, buf, pos).0[i]->0.players[k] is None,
{
    let name = buf.subrange(pos + 1, pos + 1 + buf[pos]);
    assert(request_name(buf, pos) == name);
    lemma_first_none_is(s, i);
    lemma_find_named(s, name, 0);
    if find_named(s, name, 0) < s.len() {
        assert(s[find_named(s, name, 0)] is Some);
    }
    lemma_player_id_value(i as u8, 0);
    assert(create_spec(s, id, buf, pos).1 =~= seq![
        (id % 256) as u8,
        (id / 256) as u8,
        out_op::GAME_CREATED,
        i as u8,
        0u8,
    ]);
}

/// In a well-formed server, a join with a name of at most 15 bytes that is
/// well-formed UTF-8 and held by the game in slot `j`, whose first empty
/// player slot is `k`, puts a player with id `j + 256 * k` in that slot,
/// whatever the other games are, and is answered with the packet id,
/// `GAME_JOINED` and that id.
pub proof fn lemma_join_named_game(
    s: Seq<Option<GameView>>,
    id: u16,
    buf: Seq<u8>,
    pos: int,
    j: int,
    k: int,
)
    requires
        server_wf(s),
        0 <= pos,
        payload_readable(buf, pos),
        buf[pos] <= 15,
        valid_utf8(buf.subrange(pos + 1, pos + 1 + buf[pos])),
        0 <= j < s.len(),
        s[j] is Some,
        s[j]->0.name == buf.subrange(pos + 1, pos + 1 + buf[pos]),
        0 <= k < s[j]->0.players.len(),
        s[j]->0.players[k] is None,
        forall|l: int| 0 <= l < k ==> s[j]->0.players[l] is Some,
    ensures
        join_spec(s, id, buf, pos).1 == seq![
            (id % 256) as u8,
            (id / 256) as u8,
            out_op::GAME_JOINED,
            j as u8,
            k as u8,
        ],
        join_spec(s, id, buf, pos).0.len() == s.len(),
        forall|a: int| 0 <= a < s.len() && a != j ==> join_spec(s, id, buf, pos).0[a] == s[a],
        join_spec(s, id, buf, pos).0[j] is Some,
        join_spec(s, id, buf, pos).0[j]->0.id == s[j]->0.id,
        join_spec(s, id, buf, pos).0[j]->0.name == s[j]->0.name,
        join_spec(s, id, buf, pos).0[j]->0.players == s[j]->0.players.update(
            k,
            Some((j + 256 * k) as u16),
        ),
{
    let name = buf.subrange(pos + 1, pos + 1 + buf[pos]);
    assert(request_name(buf, pos) == name);
    assert(game_wf(s[j]->0, j));
    lemma_first_none(s, 0);
    lemma_find_named(s, name, 0);
    let f = find_named(s, name, 0);
    if f < s.len() {
        if f != j {
            assert(s[f] is Some);
            if f < j {
                assert(s[f]->0.name != s[j]->0.name);
            } else {
                assert(s[j]->0.name != s[f]->0.name);
            }
        }
    } else {
        if j >= first_none(s, 0) {
            assert(s[first_none(s, 0)] is None);
        }
    }
    assert(f == j);
    lemma_first_none_is(s[j]->0.players, k);
    lemma_player_id_value(j as u8, k as u8);
    assert(join_spec(s, id, buf, pos).1 =~= seq![
        (id % 256) as u8,
        (id / 256) as u8,
        out_op::GAME_JOINED,
        j as u8,
        k as u8,
    ]);
}

} // verus!
