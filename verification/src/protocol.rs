//! Packet types of the multiplayer protocol: which packets the client reads,
//! told apart by the name in their `type` field, and the names it sends; and
//! the WebSocket address of a game server.

use vstd::prelude::*;
use crate::text::str_equal;

verus! {

#[derive(Clone, Copy, Debug, PartialEq, Eq, Structural)]
pub enum PacketKind {
    /// The region's full state, sent on joining.
    RegionState,
    /// A price set by the server's market.
    MarketEvent,
    /// Another player's saved state (also sent by this client).
    StateUpdate,
    /// A player's position (also sent by this client).
    CursorSync,
    /// A chat line (also sent by this client).
    Chat,
    /// The names of the players online.
    PlayerList,
    /// Positions and moods of the server's NPCs.
    NpcUpdate,
}

pub open spec fn packet_name(k: PacketKind) -> Seq<char> {
    match k {
        PacketKind::RegionState => "region_state"@,
        PacketKind::MarketEvent => "market_event"@,
        PacketKind::StateUpdate => "state_update"@,
        PacketKind::CursorSync => "cursor_sync"@,
        PacketKind::Chat => "chat"@,
        PacketKind::PlayerList => "player_list"@,
        PacketKind::NpcUpdate => "npc_update"@,
    }
}

/// The name of a packet type on the wire.
pub fn packet_type(k: PacketKind) -> (r: &'static str)
    ensures
        r@ == packet_name(k),
{
    match k {
        PacketKind::RegionState => "region_state",
        PacketKind::MarketEvent => "market_event",
        PacketKind::StateUpdate => "state_update",
        PacketKind::CursorSync => "cursor_sync",
        PacketKind::Chat => "chat",
        PacketKind::PlayerList => "player_list",
        PacketKind::NpcUpdate => "npc_update",
    }
}

/// The kind of a received packet from its type name; packets of any other
/// type are ignored.
pub fn packet_kind(ptype: &str) -> (r: Option<PacketKind>)
    ensures
        match r {
            Some(k) => packet_name(k) == ptype@,
            None => forall|k: PacketKind| packet_name(k) != ptype@,
        },
{
    if str_equal(ptype, "region_state") {
        Some(PacketKind::RegionState)
    } else if str_equal(ptype, "market_event") {
        Some(PacketKind::MarketEvent)
    } else if str_equal(ptype, "state_update") {
        Some(PacketKind::StateUpdate)
    } else if str_equal(ptype, "cursor_sync") {
        Some(PacketKind::CursorSync)
    } else if str_equal(ptype, "chat") {
        Some(PacketKind::Chat)
    } else if str_equal(ptype, "player_list") {
        Some(PacketKind::PlayerList)
    } else if str_equal(ptype, "npc_update") {
        Some(PacketKind::NpcUpdate)
    } else {
        None
    }
}

/// No two packet kinds share a name, so reading back the name that
/// `packet_type` gives yields the same kind.
pub proof fn law_packet_names_distinct(a: PacketKind, b: PacketKind)
    ensures
        packet_name(a) == packet_name(b) ==> a == b,
{
    reveal_strlit("region_state");
    reveal_strlit("market_event");
    reveal_strlit("state_update");
    reveal_strlit("cursor_sync");
    reveal_strlit("chat");
    reveal_strlit("player_list");
    reveal_strlit("npc_update");
    if packet_name(a) == packet_name(b) {
        assert(packet_name(a).len() == packet_name(b).len());
        assert(packet_name(a)[0] == packet_name(b)[0]);
    }
}

/// `s` with every occurrence of `p` replaced by `q`, scanning from the left
/// and never overlapping, as `str::replace` does.
pub open spec fn replace_all(s: Seq<char>, p: Seq<char>, q: Seq<char>) -> Seq<char>
    decreases s.len(),
{
    if p.len() == 0 || s.len() < p.len() {
        s
    } else if s.take(p.len() as int) == p {
        q + replace_all(s.skip(p.len() as int), p, q)
    } else {
        seq![s[0]] + replace_all(s.skip(1), p, q)
    }
}

/// The WebSocket address of a server reached over HTTP: `http://` becomes
/// `ws://` and then `https://` becomes `wss://`, wherever they occur.
pub open spec fn ws_address_spec(url: Seq<char>) -> Seq<char> {
    replace_all(
        replace_all(url, seq!['h', 't', 't', 'p', ':', '/', '/'], seq!['w', 's', ':', '/', '/']),
        seq!['h', 't', 't', 'p', 's', ':', '/', '/'],
        seq!['w', 's', 's', ':', '/', '/'],
    )
}

fn occurs_at(s: &Vec<char>, p: &Vec<char>, i: usize) -> (r: bool)
    requires
        i <= s@.len(),
    ensures
        r == (s@.len() - i >= p@.len() && s@.skip(i as int).take(p@.len() as int) == p@),
{
    if s.len() - i < p.len() {
        return false;
    }
    let mut k: usize = 0;
    while k < p.len()
        invariant
            s@.len() <= usize::MAX,
            i + p@.len() <= s@.len(),
            k <= p@.len(),
            forall|j: int| 0 <= j < k ==> s@[i + j] == p@[j],
        decreases p@.len() - k,
    {
        if s[i + k] != p[k] {
            assert(s@.skip(i as int).take(p@.len() as int)[k as int] != p@[k as int]);
            return false;
        }
        k = k + 1;
    }
    assert(s@.skip(i as int).take(p@.len() as int) =~= p@);
    true
}

fn replace_all_chars(s: &Vec<char>, p: &Vec<char>, q: &Vec<char>) -> (out: Vec<char>)
    requires
        p@.len() > 0,
    ensures
        out@ == replace_all(s@, p@, q@),
{
    let mut out: Vec<char> = Vec::new();
    let mut i: usize = 0;
    assert(s@.skip(0) =~= s@);
    assert(out@ + s@ =~= s@);
    while i < s.len()
        invariant
            p@.len() > 0,
            i <= s@.len(),
            out@ + replace_all(s@.skip(i as int), p@, q@) == replace_all(s@, p@, q@),
        decreases s@.len() - i,
    {
        let ghost rest = s@.skip(i as int);
        if occurs_at(s, p, i) {
            let ghost before = out@;
            let mut k: usize = 0;
            while k < q.len()
                invariant
                    k <= q@.len(),
                    out@ == before + q@.take(k as int),
                decreases q@.len() - k,
            {
                out.push(q[k]);
                k = k + 1;
                assert(out@ =~= before + q@.take(k as int));
            }
            proof {
                assert(q@.take(q@.len() as int) =~= q@);
                assert(rest.skip(p@.len() as int) =~= s@.skip(i + p@.len()));
                assert(replace_all(rest, p@, q@) == q@ + replace_all(rest.skip(p@.len() as int), p@, q@));
                assert(before + replace_all(rest, p@, q@) =~= out@ + replace_all(s@.skip(i + p@.len()), p@, q@));
            }
            i = i + p.len();
        } else {
            let ghost before = out@;
            out.push(s[i]);
            proof {
                assert(rest.skip(1) =~= s@.skip(i + 1));
                assert(rest[0] == s@[i as int]);
                if rest.len() >= p@.len() {
                    assert(replace_all(rest, p@, q@) == seq![rest[0]] + replace_all(rest.skip(1), p@, q@));
                    assert(before + replace_all(rest, p@, q@) =~= out@ + replace_all(s@.skip(i + 1), p@, q@));
                } else {
                    assert(replace_all(rest, p@, q@) == rest);
                    let tail = s@.skip(i + 1);
                    assert(tail.len() < p@.len());
                    assert(replace_all(tail, p@, q@) == tail);
                    assert(before + rest =~= out@ + tail);
                }
            }
            i = i + 1;
        }
    }
    proof {
        assert(s@.skip(i as int).len() == 0);
        assert(out@ + replace_all(s@.skip(i as int), p@, q@) =~= out@);
    }
    out
}

/// The WebSocket address for a game server's HTTP address.
pub fn ws_address(url: &Vec<char>) -> (r: Vec<char>)
    ensures
        r@ == ws_address_spec(url@),
{
    let http = vec!['h', 't', 't', 'p', ':', '/', '/'];
    let ws = vec!['w', 's', ':', '/', '/'];
    let https = vec!['h', 't', 't', 'p', 's', ':', '/', '/'];
    let wss = vec!['w', 's', 's', ':', '/', '/'];
    proof {
        assert(http@ =~= seq!['h', 't', 't', 'p', ':', '/', '/']);
        assert(ws@ =~= seq!['w', 's', ':', '/', '/']);
        assert(https@ =~= seq!['h', 't', 't', 'p', 's', ':', '/', '/']);
        assert(wss@ =~= seq!['w', 's', 's', ':', '/', '/']);
    }
    let once = replace_all_chars(url, &http, &ws);
    replace_all_chars(&once, &https, &wss)
}

} // verus!
