//! The datagram reassembler: turns the raw datagrams of one logical
//! response — a single packet, or several fragments arriving in any
//! order — into the one logical byte buffer the message decoders read.
use vstd::prelude::*;
use vstd::assert_seqs_equal;

use crate::misc::le_i32_at;
use crate::misc::le_u32_at;
use crate::misc::ByteCursor;
use crate::misc::FromBytestream;
use crate::misc::ServerQueryError;
use crate::misc::sub_bytes;

verus! {

/// A single-packet response: a four-byte signed header of -1.
pub open spec fn is_single(d: Seq<u8>) -> bool {
    d.len() >= 4 && le_i32_at(d, 0) == -1
}

/// A multi-packet response: a four-byte signed header of -2.
pub open spec fn is_multi(d: Seq<u8>) -> bool {
    d.len() >= 4 && le_i32_at(d, 0) == -2
}

/// The payload of a single-packet response: everything after the header.
pub open spec fn single_payload(d: Seq<u8>) -> Seq<u8> {
    d.subrange(4, d.len() as int)
}

/// A well-formed fragment datagram, header included: a full descriptor,
/// the compressed flag (the id field's high bit) clear, and the fragment
/// index below the total count.
pub open spec fn frag_ok(d: Seq<u8>) -> bool {
    &&& d.len() >= 12
    &&& le_u32_at(d, 4) < 0x80000000
    &&& d[9] < d[8]
}

/// The total-fragment count of a fragment datagram.
pub open spec fn frag_total(d: Seq<u8>) -> int {
    d[8] as int
}

/// The 0-based index of a fragment datagram.
pub open spec fn frag_index(d: Seq<u8>) -> int {
    d[9] as int
}

/// The payload of a fragment datagram: everything after the descriptor
/// (header, id field, total, index, and the two max-packet-size bytes).
pub open spec fn frag_payload(d: Seq<u8>) -> Seq<u8> {
    d.subrange(12, d.len() as int)
}

/// Whether a buffer starts with the four-byte single-packet marker that
/// some servers erroneously duplicate inside multi-packet payloads.
pub open spec fn has_single_marker(b: Seq<u8>) -> bool {
    b.len() >= 4 && b[0] == 0xff && b[1] == 0xff && b[2] == 0xff && b[3] == 0xff
}

/// Drops a duplicated single-packet marker from the front of a buffer.
pub open spec fn strip_single_marker(b: Seq<u8>) -> Seq<u8> {
    if has_single_marker(b) {
        b.subrange(4, b.len() as int)
    } else {
        b
    }
}

/// `n` payload slots, all still empty.
pub open spec fn empty_slots(n: int) -> Seq<Seq<u8>> {
    Seq::new(n as nat, |i: int| Seq::<u8>::empty())
}

/// The logical buffer a full slot table yields: the payloads concatenated
/// in index order, with a duplicated single-packet marker stripped.
pub open spec fn assembled(slots: Seq<Seq<u8>>) -> Seq<u8> {
    strip_single_marker(slots.flatten())
}

/// A multi-packet response still being collected: one payload slot per
/// announced fragment, filled as datagrams arrive, in any order.
pub struct PendingReassembly {
    slots: Vec<Vec<u8>>,
    received: usize,
}

/// What one datagram made of the logical response: finished it, or left
/// it waiting for more fragments.
pub enum ReassemblyStatus {
    Complete(Vec<u8>),
    Pending(PendingReassembly),
}

/// Fills a slot table from a sequence of arrivals, each an index paired
/// with a payload, in arrival order — exactly what feeding the fragments
/// to the reassembler one by one does to its slots.
pub open spec fn store_fragments(slots: Seq<Seq<u8>>, frags: Seq<(int, Seq<u8>)>) -> Seq<Seq<u8>>
    decreases frags.len(),
{
    if frags.len() == 0 {
        slots
    } else {
        store_fragments(slots.update(frags[0].0, frags[0].1), frags.skip(1))
    }
}

/// No arrival in `frags` carries the index `idx`.
pub open spec fn index_fresh(idx: int, frags: Seq<(int, Seq<u8>)>) -> bool {
    forall|k: int| 0 <= k < frags.len() ==> (#[trigger] frags[k]).0 != idx
}

/// Every arrival's index has a slot in a table of `n` slots.
pub open spec fn indices_in_range(n: int, frags: Seq<(int, Seq<u8>)>) -> bool {
    forall|k: int| 0 <= k < frags.len() ==> 0 <= (#[trigger] frags[k]).0 < n
}

/// All arrivals carry pairwise distinct fragment indices.
pub open spec fn indices_distinct(frags: Seq<(int, Seq<u8>)>) -> bool {
    forall|j: int, k: int|
        0 <= j < k < frags.len() ==> (#[trigger] frags[j]).0 != (#[trigger] frags[k]).0
}

proof fn lemma_store_fragments_push(slots: Seq<Seq<u8>>, frags: Seq<(int, Seq<u8>)>, x: (
    int,
    Seq<u8>,
))
    ensures
        store_fragments(slots, frags.push(x)) == store_fragments(slots, frags).update(x.0, x.1),
    decreases frags.len(),
{
    let fx = frags.push(x);
    if frags.len() == 0 {
        assert(fx[0] == x);
        assert(fx.skip(1) =~= Seq::<(int, Seq<u8>)>::empty());
        assert(store_fragments(slots, fx) == store_fragments(
            slots.update(x.0, x.1),
            fx.skip(1),
        ));
        assert(store_fragments(slots.update(x.0, x.1), fx.skip(1)) == slots.update(x.0, x.1));
        assert(store_fragments(slots, frags) == slots);
    } else {
        assert(fx[0] == frags[0]);
        assert(fx.skip(1) =~= frags.skip(1).push(x));
        lemma_store_fragments_push(slots.update(frags[0].0, frags[0].1), frags.skip(1), x);
        assert(store_fragments(slots, fx) == store_fragments(
            slots.update(frags[0].0, frags[0].1),
            fx.skip(1),
        ));
        assert(store_fragments(slots, frags) == store_fragments(
            slots.update(frags[0].0, frags[0].1),
            frags.skip(1),
        ));
    }
}

proof fn lemma_store_fragments_fresh(slots: Seq<Seq<u8>>, frags: Seq<(int, Seq<u8>)>, x: (
    int,
    Seq<u8>,
))
    requires
        index_fresh(x.0, frags),
        0 <= x.0 < slots.len(),
        indices_in_range(slots.len() as int, frags),
    ensures
        store_fragments(slots.update(x.0, x.1), frags) == store_fragments(slots, frags).update(
            x.0,
            x.1,
        ),
    decreases frags.len(),
{
    if frags.len() == 0 {
    } else {
        let h = frags[0];
        assert(h.0 != x.0);
        assert(slots.update(x.0, x.1).update(h.0, h.1) =~= slots.update(h.0, h.1).update(
            x.0,
            x.1,
        ));
        assert(index_fresh(x.0, frags.skip(1)));
        assert(indices_in_range(slots.len() as int, frags.skip(1))) by {
            assert(forall|k: int|
                0 <= k < frags.skip(1).len() ==> frags.skip(1)[k] == frags[k + 1]);
        }
        lemma_store_fragments_fresh(slots.update(h.0, h.1), frags.skip(1), x);
    }
}

/// Law: reassembly does not depend on arrival order. Fragments with
/// distinct indices stored in reverse arrival order fill the slot table —
/// and so yield the assembled logical buffer — exactly as the forward
/// order does.
pub proof fn lemma_arrival_order_irrelevant(slots: Seq<Seq<u8>>, frags: Seq<(int, Seq<u8>)>)
    requires
        indices_distinct(frags),
        indices_in_range(slots.len() as int, frags),
    ensures
        store_fragments(slots, frags.reverse()) == store_fragments(slots, frags),
        assembled(store_fragments(slots, frags.reverse())) == assembled(
            store_fragments(slots, frags),
        ),
    decreases frags.len(),
{
    if frags.len() == 0 {
        assert(frags.reverse() =~= frags);
    } else {
        let h = frags[0];
        let t = frags.skip(1);
        assert(indices_distinct(t)) by {
            assert(forall|j: int, k: int|
                0 <= j < k < t.len() ==> (#[trigger] t[j]).0 != (#[trigger] t[k]).0) by {
                assert(forall|j: int| 0 <= j < t.len() ==> t[j] == frags[j + 1]);
            }
        }
        assert(index_fresh(h.0, t)) by {
            assert(forall|k: int| 0 <= k < t.len() ==> t[k] == frags[k + 1]);
        }
        assert(indices_in_range(slots.len() as int, t)) by {
            assert(forall|k: int| 0 <= k < t.len() ==> t[k] == frags[k + 1]);
        }
        lemma_store_fragments_fresh(slots, t, h);
        lemma_arrival_order_irrelevant(slots, t);
        lemma_store_fragments_push(slots, t.reverse(), h);
        assert(frags.reverse() =~= t.reverse().push(h));
    }
}

/// Reads the fragment descriptor and payload behind a multi-packet header.
fn read_fragment(cur: &mut ByteCursor) -> (r: Result<(u8, u8, Vec<u8>), ServerQueryError>)
    requires
        old(cur).wf(),
        old(cur).pos() == 4,
    ensures
        match r {
            Ok(f) => {
                &&& frag_ok(old(cur).data())
                &&& f.0 as int == frag_total(old(cur).data())
                &&& f.1 as int == frag_index(old(cur).data())
                &&& f.2@ == frag_payload(old(cur).data())
            },
            Err(e) => e == ServerQueryError::InvalidData && !frag_ok(old(cur).data()),
        },
{
    let id_field = match u32::next_data_le(cur) {
        Some(v) => v,
        None => {
            return Err(ServerQueryError::InvalidData);
        },
    };
    if id_field >= 0x80000000 {
        return Err(ServerQueryError::InvalidData);
    }
    let total = match u8::next_data_le(cur) {
        Some(v) => v,
        None => {
            return Err(ServerQueryError::InvalidData);
        },
    };
    let number = match u8::next_data_le(cur) {
        Some(v) => v,
        None => {
            return Err(ServerQueryError::InvalidData);
        },
    };
    let _max_packet_size = match i16::next_data_le(cur) {
        Some(v) => v,
        None => {
            return Err(ServerQueryError::InvalidData);
        },
    };
    if number >= total {
        return Err(ServerQueryError::InvalidData);
    }
    let payload = cur.take_rest();
    Ok((total, number, payload))
}

/// Concatenates the payload slots in index order and strips a duplicated
/// single-packet marker.
fn assemble(slots: Vec<Vec<u8>>) -> (b: Vec<u8>)
    ensures
        b@ == assembled(slots@.map_values(|v: Vec<u8>| v@)),
{
    let ghost model: Seq<Seq<u8>> = slots@.map_values(|v: Vec<u8>| v@);
    let mut out: Vec<u8> = Vec::new();
    let mut i: usize = 0;
    proof {
        assert(model.take(0) =~= Seq::<Seq<u8>>::empty());
    }
    while i < slots.len()
        invariant
            i <= slots@.len(),
            model == slots@.map_values(|v: Vec<u8>| v@),
            out@ == model.take(i as int).flatten(),
        decreases slots@.len() - i,
    {
        let ghost outer: Seq<u8> = out@;
        let mut j: usize = 0;
        while j < slots[i].len()
            invariant
                i < slots@.len(),
                j <= slots@[i as int]@.len(),
                model == slots@.map_values(|v: Vec<u8>| v@),
                out@ == outer + model[i as int].take(j as int),
            decreases slots@[i as int]@.len() - j,
        {
            let b = slots[i][j];
            out.push(b);
            j = j + 1;
            proof {
                assert_seqs_equal!(out@ == outer + model[i as int].take(j as int));
            }
        }
        i = i + 1;
        proof {
            assert(model[i - 1].take(model[i - 1].len() as int) =~= model[i - 1]);
            assert(model.take(i as int).drop_last() =~= model.take(i - 1));
            assert(model.take(i as int) =~= model.take(i - 1).push(model[i - 1]));
            model.take(i - 1).lemma_flatten_push(model[i - 1]);
        }
    }
    proof {
        assert(model.take(model.len() as int) =~= model);
    }
    if out.len() >= 4 && out[0] == 0xff && out[1] == 0xff && out[2] == 0xff && out[3] == 0xff {
        let stripped = sub_bytes(&out, 4, out.len());
        stripped
    } else {
        out
    }
}

/// Starts reassembling a logical response from its first datagram.
///
/// A single-packet header completes at once with the rest of the datagram;
/// a multi-packet header opens a slot table and records the first
/// fragment; anything else — an unknown header, a truncated descriptor, a
/// compressed fragment, an index at or past the total — is invalid data.
pub fn begin_reassembly(datagram: Vec<u8>) -> (r: Result<ReassemblyStatus, ServerQueryError>)
    ensures
        match r {
            Ok(ReassemblyStatus::Complete(b)) => (is_single(datagram@) && b@ == single_payload(
                datagram@,
            )) || (is_multi(datagram@) && frag_ok(datagram@) && frag_total(datagram@) == 1 && b@
                == strip_single_marker(frag_payload(datagram@))),
            Ok(ReassemblyStatus::Pending(p)) => {
                &&& is_multi(datagram@)
                &&& frag_ok(datagram@)
                &&& frag_total(datagram@) > 1
                &&& p.wf()
                &&& p.received() == 1
                &&& p.slots() == empty_slots(frag_total(datagram@)).update(
                    frag_index(datagram@),
                    frag_payload(datagram@),
                )
            },
            Err(e) => e == ServerQueryError::InvalidData && !(is_single(datagram@) || (is_multi(
                datagram@,
            ) && frag_ok(datagram@))),
        },
{
    let ghost d: Seq<u8> = datagram@;
    let mut cur = ByteCursor::new(datagram);
    let header = match i32::next_data_le(&mut cur) {
        Some(v) => v,
        None => {
            return Err(ServerQueryError::InvalidData);
        },
    };
    if header == -1 {
        let payload = cur.take_rest();
        Ok(ReassemblyStatus::Complete(payload))
    } else if header == -2 {
        let (total, number, payload) = match read_fragment(&mut cur) {
            Ok(f) => f,
            Err(e) => {
                return Err(e);
            },
        };
        let mut slots: Vec<Vec<u8>> = Vec::new();
        let mut i: usize = 0;
        while i < total as usize
            invariant
                i <= total as int,
                slots@.len() == i,
                forall|k: int| 0 <= k < i as int ==> slots@[k]@ == Seq::<u8>::empty(),
            decreases total as int - i,
        {
            slots.push(Vec::new());
            i = i + 1;
        }
        proof {
            let m: Seq<Seq<u8>> = slots@.map_values(|v: Vec<u8>| v@);
            assert(forall|k: int| 0 <= k < m.len() ==> #[trigger] m[k] == slots@[k]@);
            assert(m =~~= empty_slots(total as int));
        }
        let ghost before: Seq<Seq<u8>> = slots@.map_values(|v: Vec<u8>| v@);
        slots[number as usize] = payload;
        proof {
            let m: Seq<Seq<u8>> = slots@.map_values(|v: Vec<u8>| v@);
            assert(forall|k: int| 0 <= k < m.len() ==> #[trigger] m[k] == slots@[k]@);
            assert(m =~~= before.update(frag_index(d), frag_payload(d)));
        }
        if total == 1 {
            proof {
                let final_slots = slots@.map_values(|v: Vec<u8>| v@);
                assert(final_slots.len() == 1);
                final_slots.lemma_flatten_singleton();
            }
            let buf = assemble(slots);
            Ok(ReassemblyStatus::Complete(buf))
        } else {
            Ok(ReassemblyStatus::Pending(PendingReassembly { slots, received: 1 }))
        }
    } else {
        Err(ServerQueryError::InvalidData)
    }
}

impl PendingReassembly {
    /// The payload slots, in fragment-index order; unfilled ones are empty.
    pub closed spec fn slots(&self) -> Seq<Seq<u8>> {
        self.slots@.map_values(|v: Vec<u8>| v@)
    }

    /// How many datagrams have been recorded so far.
    pub closed spec fn received(&self) -> int {
        self.received as int
    }

    pub open spec fn wf(&self) -> bool {
        1 <= self.received() < self.slots().len() <= 255
    }

    /// Feeds the next datagram of the same logical response.
    ///
    /// It must carry a multi-packet header and a well-formed fragment
    /// descriptor whose index has a slot; its payload is stored at that
    /// index — arrival order never matters. The datagram that brings the
    /// count to the announced total completes the logical buffer.
    pub fn add_datagram(self, datagram: Vec<u8>) -> (r: Result<ReassemblyStatus, ServerQueryError>)
        requires
            self.wf(),
        ensures
            match r {
                Ok(ReassemblyStatus::Complete(b)) => {
                    &&& is_multi(datagram@)
                    &&& frag_ok(datagram@)
                    &&& frag_index(datagram@) < self.slots().len()
                    &&& self.received() + 1 == self.slots().len()
                    &&& b@ == assembled(
                        self.slots().update(frag_index(datagram@), frag_payload(datagram@)),
                    )
                },
                Ok(ReassemblyStatus::Pending(p)) => {
                    &&& is_multi(datagram@)
                    &&& frag_ok(datagram@)
                    &&& frag_index(datagram@) < self.slots().len()
                    &&& self.received() + 1 < self.slots().len()
                    &&& p.wf()
                    &&& p.received() == self.received() + 1
                    &&& p.slots() == self.slots().update(
                        frag_index(datagram@),
                        frag_payload(datagram@),
                    )
                },
                Err(e) => e == ServerQueryError::InvalidData && !(is_multi(datagram@) && frag_ok(
                    datagram@,
                ) && frag_index(datagram@) < self.slots().len()),
            },
    {
        let ghost d: Seq<u8> = datagram@;
        let ghost start: Seq<Seq<u8>> = self.slots();
        let mut this = self;
        let mut cur = ByteCursor::new(datagram);
        let header = match i32::next_data_le(&mut cur) {
            Some(v) => v,
            None => {
                return Err(ServerQueryError::InvalidData);
            },
        };
        if header != -2 {
            return Err(ServerQueryError::InvalidData);
        }
        let (_total, number, payload) = match read_fragment(&mut cur) {
            Ok(f) => f,
            Err(e) => {
                return Err(e);
            },
        };
        if number as usize >= this.slots.len() {
            return Err(ServerQueryError::InvalidData);
        }
        this.slots[number as usize] = payload;
        proof {
            let m: Seq<Seq<u8>> = this.slots@.map_values(|v: Vec<u8>| v@);
            assert(forall|k: int| 0 <= k < m.len() ==> #[trigger] m[k] == this.slots@[k]@);
            assert(m =~~= start.update(frag_index(d), frag_payload(d)));
        }
        this.received = this.received + 1;
        if this.received == this.slots.len() {
            let buf = assemble(this.slots);
            Ok(ReassemblyStatus::Complete(buf))
        } else {
            Ok(ReassemblyStatus::Pending(this))
        }
    }
}

} // verus!
