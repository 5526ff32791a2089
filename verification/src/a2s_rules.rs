//! The A2S_RULES message decoder: a rule count, then that many
//! name/value pairs, with the same lenient truncation policy as the
//! player list.
use vstd::prelude::*;

use crate::misc::ByteCursor;
use crate::misc::FromBytestream;
use crate::misc::ServerQueryError;
use crate::misc::lemma_seq_decode_snoc;
use crate::misc::lemma_seq_decode_stop;
use crate::misc::seq_decode_end;
use crate::misc::seq_decodes_to;
use crate::misc::seq_prefix_ok;
use crate::types::Rule;

verus! {

/// A decoded A2S_RULES reply: the rules the server reported, up to the
/// first incomplete pair.
#[derive(Debug)]
pub struct A2SRules {
    pub rules: Vec<Rule>,
}

impl A2SRules {
    /// Decodes a whole A2S_RULES payload (the logical response without
    /// its response-type marker). Fails only when even the count byte is
    /// missing; an incomplete pair merely ends the list.
    pub fn decode(payload: Vec<u8>) -> (r: Result<A2SRules, ServerQueryError>)
        ensures
            r is Ok <==> <A2SRules as FromBytestream>::decode_ok(payload@, 0),
            (r matches Ok(v) ==> <A2SRules as FromBytestream>::decodes_to(payload@, 0, v)),
            r is Err ==> r == Err::<A2SRules, ServerQueryError>(ServerQueryError::InvalidData),
    {
        let mut cur = ByteCursor::new(payload);
        match A2SRules::next_data_le(&mut cur) {
            Some(v) => Ok(v),
            None => Err(ServerQueryError::InvalidData),
        }
    }
}

impl FromBytestream for A2SRules {
    open spec fn decode_ok(data: Seq<u8>, pos: int) -> bool {
        <u8 as FromBytestream>::decode_ok(data, pos)
    }

    open spec fn decode_end(data: Seq<u8>, pos: int) -> int {
        if <u8 as FromBytestream>::decode_ok(data, pos) {
            seq_decode_end::<Rule>(data, pos + 1, data[pos] as nat)
        } else {
            pos
        }
    }

    open spec fn decodes_to(data: Seq<u8>, pos: int, v: A2SRules) -> bool {
        &&& <u8 as FromBytestream>::decode_ok(data, pos)
        &&& seq_decodes_to::<Rule>(data, pos + 1, data[pos] as nat, v.rules@)
    }

    fn next_data_le(cur: &mut ByteCursor) -> (r: Option<A2SRules>) {
        let ghost data: Seq<u8> = cur.data();
        let num = match u8::next_data_le(cur) {
            Some(v) => v,
            None => {
                return None;
            },
        };
        let ghost start: int = cur.pos();
        let mut rules: Vec<Rule> = Vec::new();
        let mut i: usize = 0;
        let mut truncated = false;
        while i < num as usize && !truncated
            invariant
                cur.wf(),
                cur.data() == data,
                start <= cur.pos(),
                i <= num as int,
                !truncated ==> {
                    &&& rules@.len() == i
                    &&& seq_prefix_ok::<Rule>(data, start, i as nat)
                    &&& seq_decodes_to::<Rule>(data, start, i as nat, rules@)
                    &&& cur.pos() == seq_decode_end::<Rule>(data, start, i as nat)
                },
                truncated ==> {
                    &&& seq_decodes_to::<Rule>(data, start, num as nat, rules@)
                    &&& cur.pos() == seq_decode_end::<Rule>(data, start, num as nat)
                },
            decreases num as int - i, (if truncated { 0int } else { 1int }),
        {
            match Rule::next_data_le(cur) {
                Some(rule) => {
                    proof {
                        lemma_seq_decode_snoc::<Rule>(data, start, i as nat, rules@, rule);
                    }
                    rules.push(rule);
                    i = i + 1;
                },
                None => {
                    proof {
                        lemma_seq_decode_stop::<Rule>(data, start, i as nat, num as nat, rules@);
                    }
                    truncated = true;
                },
            }
        }
        Some(A2SRules { rules })
    }
}

} // verus!
