//! Query engine for the Source Engine "A2S" server-query protocol:
//! request construction, the challenge handshake, multi-datagram
//! reassembly, and the typed decoders for info, player and rule replies.
//! The transport (a UDP socket) is owned by the caller, which sends the
//! request bytes out and feeds the raw datagrams back in.
use vstd::prelude::*;

pub mod a2s;
pub mod a2s_info;
pub mod a2s_players;
pub mod a2s_rules;
pub mod misc;
pub mod packet;
pub mod types;

use crate::a2s_info::A2SInfo;
use crate::a2s_players::A2SPlayers;
use crate::types::Player;

verus! {

/// The aggregated result of one full server query: the server's name
/// from its info reply and the names of its connected players.
#[derive(Debug)]
pub struct SteamServerInfo {
    name: String,
    players: Vec<String>,
}

impl SteamServerInfo {
    pub closed spec fn spec_name(&self) -> String {
        self.name
    }

    pub closed spec fn spec_players(&self) -> Seq<String> {
        self.players@
    }

    /// Combines a decoded info reply and a decoded player list into the
    /// aggregated record: the server's name, and each player's name in
    /// the order the server listed them.
    pub fn from_parts(info: A2SInfo, players: A2SPlayers) -> (r: SteamServerInfo)
        ensures
            r.spec_name() == info.name,
            r.spec_players() == players.players@.map_values(|p: Player| p.name),
    {
        let ghost model: Seq<Player> = players.players@;
        let mut ps = players.players;
        let mut names: Vec<String> = Vec::new();
        let ghost mapped: Seq<String> = model.map_values(|p: Player| p.name);
        let ghost mut i: int = 0;
        while ps.len() > 0
            invariant
                0 <= i,
                i + ps@.len() == model.len(),
                ps@ == model.skip(i),
                names@ == mapped.take(i),
                mapped == model.map_values(|p: Player| p.name),
            decreases ps@.len(),
        {
            let p = ps.remove(0);
            names.push(p.name);
            proof {
                i = i + 1;
                assert(ps@ =~= model.skip(i));
                assert(names@ =~= mapped.take(i));
            }
        }
        proof {
            assert(names@ =~= mapped);
        }
        SteamServerInfo { name: info.name, players: names }
    }

    pub fn name(&self) -> (r: &String)
        ensures
            *r == self.spec_name(),
    {
        &self.name
    }

    pub fn players(&self) -> (r: &Vec<String>)
        ensures
            r@ == self.spec_players(),
    {
        &self.players
    }
}

} // verus!
