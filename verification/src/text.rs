//! Byte strings: UTF-8 validity, equality and the server's error messages.
use vstd::prelude::*;
use vstd::string::*;
use vstd::utf8::valid_utf8;

verus! {

/// Calls `std::str::from_utf8` and reports whether it succeeded, which its
/// documentation says happens exactly when `bytes` are well-formed UTF-8
/// (vstd's `valid_utf8`).
#[verifier::external_body]
pub(crate) fn is_utf8(bytes: &[u8]) -> (ok: bool)
    ensures
        ok == valid_utf8(bytes@),
{
    std::str::from_utf8(bytes).is_ok()
}

/// Whether the two byte strings are equal.
pub fn bytes_equal(a: &[u8], b: &[u8]) -> (r: bool)
    ensures
        r == (a@ == b@),
{
    if a.len() != b.len() {
        return false;
    }
    let mut i: usize = 0;
    while i < a.len()
        invariant
            a@.len() == b@.len(),
            0 <= i <= a@.len(),
            forall|j: int| 0 <= j < i ==> a@[j] == b@[j],
        decreases a@.len() - i,
    {
        if a[i] != b[i] {
            return false;
        }
        i = i + 1;
    }
    assert(a@ =~= b@);
    true
}

/// The message for a game name longer than the limit.
pub open spec fn msg_name_too_long() -> Seq<u8> {
    "Game name too long! Must be <= 15 characters.".spec_bytes()
}

/// The message for a game name that is not UTF-8.
pub open spec fn msg_invalid_name() -> Seq<u8> {
    "Invalid game name".spec_bytes()
}

/// The message for a game name that another game has.
pub open spec fn msg_name_taken(name: Seq<u8>) -> Seq<u8> {
    "Game name ".spec_bytes() + name + " already taken".spec_bytes()
}

/// The message for a server that has no room for another game.
pub open spec fn msg_server_full() -> Seq<u8> {
    "Server is too full to accept another game".spec_bytes()
}

/// The message for a join request that names no game.
pub open spec fn msg_no_such_game(name: Seq<u8>) -> Seq<u8> {
    "No game is named ".spec_bytes() + name
}

/// The message for a game that has no room for another player.
pub open spec fn msg_game_full() -> Seq<u8> {
    "Game is too full to accept another player".spec_bytes()
}

/// The message for a game name longer than the limit.
pub fn name_too_long_message() -> (m: &'static [u8])
    ensures
        m@ == msg_name_too_long(),
        m@.len() == 45,
{
    let s = "Game name too long! Must be <= 15 characters.";
    proof {
        reveal_strlit("Game name too long! Must be <= 15 characters.");
        broadcast use vstd::string::group_string_axioms;
        assert(is_ascii(s));
    }
    s.as_bytes()
}

/// The message for a game name that is not UTF-8.
pub fn invalid_name_message() -> (m: &'static [u8])
    ensures
        m@ == msg_invalid_name(),
        m@.len() == 17,
{
    let s = "Invalid game name";
    proof {
        reveal_strlit("Invalid game name");
        broadcast use vstd::string::group_string_axioms;
        assert(is_ascii(s));
    }
    s.as_bytes()
}

/// The message for a server that has no room for another game.
pub fn server_full_message() -> (m: &'static [u8])
    ensures
        m@ == msg_server_full(),
        m@.len() == 41,
{
    let s = "Server is too full to accept another game";
    proof {
        reveal_strlit("Server is too full to accept another game");
        broadcast use vstd::string::group_string_axioms;
        assert(is_ascii(s));
    }
    s.as_bytes()
}

/// The message for a game that has no room for another player.
pub fn game_full_message() -> (m: &'static [u8])
    ensures
        m@ == msg_game_full(),
        m@.len() == 41,
{
    let s = "Game is too full to accept another player";
    proof {
        reveal_strlit("Game is too full to accept another player");
        broadcast use vstd::string::group_string_axioms;
        assert(is_ascii(s));
    }
    s.as_bytes()
}

/// `prefix` followed by `name` followed by `suffix`, as a new vector.
fn concat3(prefix: &[u8], name: &[u8], suffix: &[u8]) -> (v: Vec<u8>)
    ensures
        v@ == prefix@ + name@ + suffix@,
{
    let mut v: Vec<u8> = Vec::new();
    let mut i: usize = 0;
    while i < prefix.len()
        invariant
            0 <= i <= prefix@.len(),
            v@ == prefix@.subrange(0, i as int),
        decreases prefix@.len() - i,
    {
        v.push(prefix[i]);
        i = i + 1;
        assert(v@ =~= prefix@.subrange(0, i as int));
    }
    let mut j: usize = 0;
    while j < name.len()
        invariant
            0 <= j <= name@.len(),
            v@ == prefix@ + name@.subrange(0, j as int),
        decreases name@.len() - j,
    {
        v.push(name[j]);
        j = j + 1;
        assert(v@ =~= prefix@ + name@.subrange(0, j as int));
    }
    let mut k: usize = 0;
    while k < suffix.len()
        invariant
            0 <= k <= suffix@.len(),
            v@ == prefix@ + name@ + suffix@.subrange(0, k as int),
        decreases suffix@.len() - k,
    {
        v.push(suffix[k]);
        k = k + 1;
        assert(v@ =~= prefix@ + name@ + suffix@.subrange(0, k as int));
    }
    assert(prefix@.subrange(0, prefix@.len() as int) =~= prefix@);
    assert(name@.subrange(0, name@.len() as int) =~= name@);
    assert(suffix@.subrange(0, suffix@.len() as int) =~= suffix@);
    v
}

/// The message for a game name that another game has.
pub fn name_taken_message(name: &[u8]) -> (m: Vec<u8>)
    ensures
        m@ == msg_name_taken(name@),
        m@.len() == 24 + name@.len(),
{
    let p = "Game name ";
    let s = " already taken";
    proof {
        reveal_strlit("Game name ");
        reveal_strlit(" already taken");
        broadcast use vstd::string::group_string_axioms;
        assert(is_ascii(p));
        assert(is_ascii(s));
    }
    concat3(p.as_bytes(), name, s.as_bytes())
}

/// The message for a join request that names no game.
pub fn no_such_game_message(name: &[u8]) -> (m: Vec<u8>)
    ensures
        m@ == msg_no_such_game(name@),
        m@.len() == 17 + name@.len(),
{
    let p = "No game is named ";
    let e = "";
    proof {
        reveal_strlit("No game is named ");
        reveal_strlit("");
        broadcast use vstd::string::group_string_axioms;
        assert(is_ascii(p));
        assert(is_ascii(e));
    }
    let m = concat3(p.as_bytes(), name, e.as_bytes());
    assert(m@ =~= msg_no_such_game(name@));
    m
}

/// The lengths of the messages.
pub proof fn lemma_message_lengths()
    ensures
        msg_name_too_long().len() == 45,
        msg_invalid_name().len() == 17,
        msg_server_full().len() == 41,
        msg_game_full().len() == 41,
        forall|name: Seq<u8>| #[trigger] msg_name_taken(name).len() == 24 + name.len(),
        forall|name: Seq<u8>| #[trigger] msg_no_such_game(name).len() == 17 + name.len(),
{
    broadcast use vstd::string::group_string_axioms;

    reveal_strlit("Game name too long! Must be <= 15 characters.");
    reveal_strlit("Invalid game name");
    reveal_strlit("Server is too full to accept another game");
    reveal_strlit("Game is too full to accept another player");
    reveal_strlit("Game name ");
    reveal_strlit(" already taken");
    reveal_strlit("No game is named ");
    assert(is_ascii("Game name too long! Must be <= 15 characters."));
    assert(is_ascii("Invalid game name"));
    assert(is_ascii("Server is too full to accept another game"));
    assert(is_ascii("Game is too full to accept another player"));
    assert(is_ascii("Game name "));
    assert(is_ascii(" already taken"));
    assert(is_ascii("No game is named "));
}

} // verus!
