//! The A2S_PLAYER message decoder: a player count, then that many player
//! records. A record that fails to decode partway stops the pass and the
//! already-decoded prefix is returned — truncated replies are tolerated.
use vstd::prelude::*;

use crate::misc::ByteCursor;
use crate::misc::FromBytestream;
use crate::misc::ServerQueryError;
use crate::misc::lemma_seq_decode_snoc;
use crate::misc::lemma_seq_decode_stop;
use crate::misc::seq_decode_end;
use crate::misc::seq_decodes_to;
use crate::misc::seq_prefix_ok;
use crate::types::Player;

verus! {

/// A decoded A2S_PLAYER reply: the players the server reported, up to
/// the first incomplete record.
#[derive(Debug)]
pub struct A2SPlayers {
    pub players: Vec<Player>,
}

impl A2SPlayers {
    /// Decodes a whole A2S_PLAYER payload (the logical response without
    /// its response-type marker). Fails only when even the count byte is
    /// missing; an incomplete player record merely ends the list.
    pub fn decode(payload: Vec<u8>) -> (r: Result<A2SPlayers, ServerQueryError>)
        ensures
            r is Ok <==> <A2SPlayers as FromBytestream>::decode_ok(payload@, 0),
            (r matches Ok(v) ==> <A2SPlayers as FromBytestream>::decodes_to(payload@, 0, v)),
            r is Err ==> r == Err::<A2SPlayers, ServerQueryError>(ServerQueryError::InvalidData),
    {
        let mut cur = ByteCursor::new(payload);
        match A2SPlayers::next_data_le(&mut cur) {
            Some(v) => Ok(v),
            None => Err(ServerQueryError::InvalidData),
        }
    }
}

impl FromBytestream for A2SPlayers {
    open spec fn decode_ok(data: Seq<u8>, pos: int) -> bool {
        <u8 as FromBytestream>::decode_ok(data, pos)
    }

    open spec fn decode_end(data: Seq<u8>, pos: int) -> int {
        if <u8 as FromBytestream>::decode_ok(data, pos) {
            seq_decode_end::<Player>(data, pos + 1, data[pos] as nat)
        } else {
            pos
        }
    }

    open spec fn decodes_to(data: Seq<u8>, pos: int, v: A2SPlayers) -> bool {
        &&& <u8 as FromBytestream>::decode_ok(data, pos)
        &&& seq_decodes_to::<Player>(data, pos + 1, data[pos] as nat, v.players@)
    }

    fn next_data_le(cur: &mut ByteCursor) -> (r: Option<A2SPlayers>) {
        let ghost data: Seq<u8> = cur.data();
        let num = match u8::next_data_le(cur) {
            Some(v) => v,
            None => {
                return None;
            },
        };
        let ghost start: int = cur.pos();
        let mut players: Vec<Player> = Vec::new();
        let mut i: usize = 0;
        let mut truncated = false;
        while i < num as usize && !truncated
            invariant
                cur.wf(),
                cur.data() == data,
                start <= cur.pos(),
                i <= num as int,
                !truncated ==> {
                    &&& players@.len() == i
                    &&& seq_prefix_ok::<Player>(data, start, i as nat)
                    &&& seq_decodes_to::<Player>(data, start, i as nat, players@)
                    &&& cur.pos() == seq_decode_end::<Player>(data, start, i as nat)
                },
                truncated ==> {
                    &&& seq_decodes_to::<Player>(data, start, num as nat, players@)
                    &&& cur.pos() == seq_decode_end::<Player>(data, start, num as nat)
                },
            decreases num as int - i, (if truncated { 0int } else { 1int }),
        {
            match Player::next_data_le(cur) {
                Some(p) => {
                    proof {
                        lemma_seq_decode_snoc::<Player>(data, start, i as nat, players@, p);
                    }
                    players.push(p);
                    i = i + 1;
                },
                None => {
                    proof {
                        lemma_seq_decode_stop::<Player>(
                            data,
                            start,
                            i as nat,
                            num as nat,
                            players@,
                        );
                    }
                    truncated = true;
                },
            }
        }
        Some(A2SPlayers { players })
    }
}

} // verus!
