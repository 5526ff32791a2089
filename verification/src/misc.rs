//! The byte decoder: a destructive cursor over a byte buffer and
//! little-endian decoding primitives for the wire types the protocol uses.
use vstd::prelude::*;
use vstd::assert_seqs_equal;

verus! {

/// Everything that can go wrong during one query: the transport errors
/// (socket setup, send, receive) and `InvalidData` for every malformed or
/// truncated payload.
#[derive(Clone, Copy, Debug, PartialEq, Eq, Structural)]
pub enum ServerQueryError {
    CouldNotCreateSocket,
    CouldNotConnect,
    CouldNotSend,
    CouldNotReceive,
    InvalidData,
}

/// A forward-only read position inside an owned byte buffer. Decoders
/// consume it field by field; a failed read never yields a partial value.
pub struct ByteCursor {
    data: Vec<u8>,
    pos: usize,
}

impl ByteCursor {
    /// The whole underlying buffer.
    pub closed spec fn data(&self) -> Seq<u8> {
        self.data@
    }

    /// The current read position.
    pub closed spec fn pos(&self) -> int {
        self.pos as int
    }

    pub open spec fn wf(&self) -> bool {
        self.pos() <= self.data().len()
    }

    pub fn new(data: Vec<u8>) -> (c: ByteCursor)
        ensures
            c.wf(),
            c.data() == data@,
            c.pos() == 0,
    {
        ByteCursor { data, pos: 0 }
    }

    pub fn remaining(&self) -> (n: usize)
        requires
            self.wf(),
        ensures
            n == self.data().len() - self.pos(),
    {
        self.data.len() - self.pos
    }

    /// Consumes the rest of the buffer in one step.
    pub fn take_rest(&mut self) -> (r: Vec<u8>)
        requires
            old(self).wf(),
        ensures
            final(self).wf(),
            final(self).data() == old(self).data(),
            final(self).pos() == old(self).data().len(),
            r@ == old(self).data().subrange(old(self).pos(), old(self).data().len() as int),
    {
        let ghost data: Seq<u8> = self.data@;
        let ghost start: int = self.pos as int;
        let mut r: Vec<u8> = Vec::new();
        while self.pos < self.data.len()
            invariant
                0 <= start <= self.pos as int <= self.data@.len(),
                self.data@ == data,
                r@ == data.subrange(start, self.pos as int),
            decreases self.data@.len() - self.pos,
        {
            let b = self.data[self.pos];
            r.push(b);
            self.pos = self.pos + 1;
            proof {
                assert_seqs_equal!(r@ == data.subrange(start, self.pos as int));
            }
        }
        r
    }
}

/// Copies the bytes `v[from..to]` into a fresh buffer.
pub fn sub_bytes(v: &Vec<u8>, from: usize, to: usize) -> (r: Vec<u8>)
    requires
        from <= to <= v@.len(),
    ensures
        r@ == v@.subrange(from as int, to as int),
{
    let mut r: Vec<u8> = Vec::new();
    let mut i: usize = from;
    while i < to
        invariant
            from <= i <= to <= v@.len(),
            r@ == v@.subrange(from as int, i as int),
        decreases to - i,
    {
        let b = v[i];
        r.push(b);
        i = i + 1;
        proof {
            assert_seqs_equal!(r@ == v@.subrange(from as int, i as int));
        }
    }
    r
}

/// The unsigned value of two little-endian bytes.
pub open spec fn le_u16_at(data: Seq<u8>, pos: int) -> int {
    data[pos] + 0x100 * data[pos + 1]
}

/// The unsigned value of four little-endian bytes.
pub open spec fn le_u32_at(data: Seq<u8>, pos: int) -> int {
    data[pos] + 0x100 * data[pos + 1] + 0x10000 * data[pos + 2] + 0x1000000 * data[pos + 3]
}

/// The unsigned value of eight little-endian bytes.
pub open spec fn le_u64_at(data: Seq<u8>, pos: int) -> int {
    data[pos] + 0x100 * data[pos + 1] + 0x10000 * data[pos + 2] + 0x1000000 * data[pos + 3]
        + 0x100000000 * data[pos + 4] + 0x10000000000 * data[pos + 5]
        + 0x1000000000000 * data[pos + 6] + 0x100000000000000 * data[pos + 7]
}

/// Two's-complement reading of a 16-bit unsigned value.
pub open spec fn as_i16(v: int) -> int {
    if v >= 0x8000 {
        v - 0x10000
    } else {
        v
    }
}

/// Two's-complement reading of a 32-bit unsigned value.
pub open spec fn as_i32(v: int) -> int {
    if v >= 0x80000000 {
        v - 0x100000000
    } else {
        v
    }
}

pub open spec fn le_i16_at(data: Seq<u8>, pos: int) -> int {
    as_i16(le_u16_at(data, pos))
}

pub open spec fn le_i32_at(data: Seq<u8>, pos: int) -> int {
    as_i32(le_u32_at(data, pos))
}

/// The position of the first zero byte at or after `pos`, or the buffer's
/// length if there is none.
pub open spec fn null_pos(data: Seq<u8>, pos: int) -> int
    decreases data.len() - pos,
{
    if pos < 0 || pos >= data.len() {
        data.len() as int
    } else if data[pos] == 0 {
        pos
    } else {
        null_pos(data, pos + 1)
    }
}

/// The bytes of a null-terminated string field: everything up to, and not
/// including, its terminator (or the end of the buffer).
pub open spec fn str_body(data: Seq<u8>, pos: int) -> Seq<u8> {
    data.subrange(pos, null_pos(data, pos))
}

/// The position right after a null-terminated string field: past the
/// terminator when there is one, else the end of the buffer.
pub open spec fn str_end(data: Seq<u8>, pos: int) -> int {
    if null_pos(data, pos) < data.len() {
        null_pos(data, pos) + 1
    } else {
        data.len() as int
    }
}

/// What `String::from_utf8_lossy` decodes the given bytes to.
pub uninterp spec fn lossy_utf8(bytes: Seq<u8>) -> Seq<char>;

/// Relies on String::from_utf8_lossy: the decoded text is a function of the
/// bytes alone (invalid UTF-8 sequences are replaced, never an error), and
/// an empty input decodes to an empty string.
#[verifier::external_body]
fn utf8_lossy(bytes: &Vec<u8>) -> (r: String)
    ensures
        r@ == lossy_utf8(bytes@),
        bytes@.len() == 0 ==> r@.len() == 0,
{
    String::from_utf8_lossy(bytes).into_owned()
}

/// One value decoded from the front of a byte stream, little-endian where
/// the type has byte order. Each implementing type pins down, as spec
/// functions, when a decode succeeds, where it leaves the cursor, and what
/// value it yields.
pub trait FromBytestream: Sized {
    /// Whether a value of this type can be decoded at `pos`.
    spec fn decode_ok(data: Seq<u8>, pos: int) -> bool;

    /// Where the cursor stands after the decode attempt at `pos`,
    /// successful or not.
    spec fn decode_end(data: Seq<u8>, pos: int) -> int;

    /// Whether `v` is the value decoded at `pos`.
    spec fn decodes_to(data: Seq<u8>, pos: int, v: Self) -> bool;

    fn next_data_le(cur: &mut ByteCursor) -> (r: Option<Self>)
        requires
            old(cur).wf(),
        ensures
            final(cur).wf(),
            final(cur).data() == old(cur).data(),
            old(cur).pos() <= final(cur).pos(),
            final(cur).pos() == Self::decode_end(old(cur).data(), old(cur).pos()),
            r is Some <==> Self::decode_ok(old(cur).data(), old(cur).pos()),
            (r matches Some(v) ==> Self::decodes_to(old(cur).data(), old(cur).pos(), v)),
    ;
}

/// Chains one more field onto a decode in progress: `st` is whether the
/// fields so far decoded and where they left the cursor; a failed chain
/// stays where it stalled.
pub open spec fn decode_step<T: FromBytestream>(data: Seq<u8>, st: (bool, int)) -> (bool, int) {
    if st.0 {
        (T::decode_ok(data, st.1), T::decode_end(data, st.1))
    } else {
        st
    }
}

/// Whether `n` values of `T` decode in sequence from `pos`.
pub open spec fn seq_prefix_ok<T: FromBytestream>(data: Seq<u8>, pos: int, n: nat) -> bool
    decreases n,
{
    if n == 0 {
        true
    } else {
        T::decode_ok(data, pos) && seq_prefix_ok::<T>(data, T::decode_end(data, pos), (n - 1) as nat)
    }
}

/// Where the cursor stands after attempting `n` values of `T` in sequence
/// from `pos`, stopping at the first failure.
pub open spec fn seq_decode_end<T: FromBytestream>(data: Seq<u8>, pos: int, n: nat) -> int
    decreases n,
{
    if n == 0 {
        pos
    } else if !T::decode_ok(data, pos) {
        T::decode_end(data, pos)
    } else {
        seq_decode_end::<T>(data, T::decode_end(data, pos), (n - 1) as nat)
    }
}

/// Whether `vs` is what attempting `n` values of `T` in sequence from
/// `pos` yields: the values up to the first failure, at most `n` of them.
pub open spec fn seq_decodes_to<T: FromBytestream>(
    data: Seq<u8>,
    pos: int,
    n: nat,
    vs: Seq<T>,
) -> bool
    decreases n,
{
    if n == 0 {
        vs.len() == 0
    } else if !T::decode_ok(data, pos) {
        vs.len() == 0
    } else {
        &&& vs.len() >= 1
        &&& T::decodes_to(data, pos, vs[0])
        &&& seq_decodes_to::<T>(data, T::decode_end(data, pos), (n - 1) as nat, vs.skip(1))
    }
}

/// Extends a fully successful decoded prefix by one more value.
pub proof fn lemma_seq_decode_snoc<T: FromBytestream>(
    data: Seq<u8>,
    pos: int,
    i: nat,
    vs: Seq<T>,
    x: T,
)
    requires
        seq_prefix_ok::<T>(data, pos, i),
        seq_decodes_to::<T>(data, pos, i, vs),
        vs.len() == i,
        T::decode_ok(data, seq_decode_end::<T>(data, pos, i)),
        T::decodes_to(data, seq_decode_end::<T>(data, pos, i), x),
    ensures
        seq_prefix_ok::<T>(data, pos, (i + 1) as nat),
        seq_decodes_to::<T>(data, pos, (i + 1) as nat, vs.push(x)),
        seq_decode_end::<T>(data, pos, (i + 1) as nat) == T::decode_end(
            data,
            seq_decode_end::<T>(data, pos, i),
        ),
    decreases i,
{
    if i == 0 {
        assert(seq_decode_end::<T>(data, pos, 0) == pos);
        assert(vs.push(x)[0] == x);
        assert(vs.push(x).skip(1) =~= Seq::<T>::empty());
        assert(seq_prefix_ok::<T>(data, T::decode_end(data, pos), 0));
        assert(seq_decodes_to::<T>(data, T::decode_end(data, pos), 0, vs.push(x).skip(1)));
        assert(seq_decode_end::<T>(data, T::decode_end(data, pos), 0) == T::decode_end(data, pos));
    } else {
        let pos1 = T::decode_end(data, pos);
        assert(T::decode_ok(data, pos));
        assert(seq_prefix_ok::<T>(data, pos1, (i - 1) as nat));
        assert(seq_decodes_to::<T>(data, pos1, (i - 1) as nat, vs.skip(1)));
        assert(seq_decode_end::<T>(data, pos, i) == seq_decode_end::<T>(data, pos1, (i - 1) as nat));
        assert(vs.push(x)[0] == vs[0]);
        assert(vs.push(x).skip(1) =~= vs.skip(1).push(x));
        lemma_seq_decode_snoc::<T>(data, pos1, (i - 1) as nat, vs.skip(1), x);
        assert(seq_prefix_ok::<T>(data, pos, (i + 1) as nat));
        assert(seq_decodes_to::<T>(data, pos, (i + 1) as nat, vs.push(x)));
        assert(seq_decode_end::<T>(data, pos, (i + 1) as nat) == seq_decode_end::<T>(
            data,
            pos1,
            i,
        ));
    }
}

/// A fully successful decoded prefix of `i` values, stalled at the next
/// one, is what any larger attempt yields too.
pub proof fn lemma_seq_decode_stop<T: FromBytestream>(
    data: Seq<u8>,
    pos: int,
    i: nat,
    n: nat,
    vs: Seq<T>,
)
    requires
        i < n,
        seq_prefix_ok::<T>(data, pos, i),
        seq_decodes_to::<T>(data, pos, i, vs),
        vs.len() == i,
        !T::decode_ok(data, seq_decode_end::<T>(data, pos, i)),
    ensures
        seq_decodes_to::<T>(data, pos, n, vs),
        seq_decode_end::<T>(data, pos, n) == T::decode_end(
            data,
            seq_decode_end::<T>(data, pos, i),
        ),
    decreases i,
{
    if i == 0 {
        assert(vs =~= Seq::<T>::empty());
    } else {
        lemma_seq_decode_stop::<T>(
            data,
            T::decode_end(data, pos),
            (i - 1) as nat,
            (n - 1) as nat,
            vs.skip(1),
        );
    }
}

impl FromBytestream for u8 {
    open spec fn decode_ok(data: Seq<u8>, pos: int) -> bool {
        pos + 1 <= data.len()
    }

    open spec fn decode_end(data: Seq<u8>, pos: int) -> int {
        if pos + 1 <= data.len() {
            pos + 1
        } else {
            pos
        }
    }

    open spec fn decodes_to(data: Seq<u8>, pos: int, v: u8) -> bool {
        pos + 1 <= data.len() && v == data[pos]
    }

    fn next_data_le(cur: &mut ByteCursor) -> (r: Option<u8>) {
        if cur.pos < cur.data.len() {
            let b = cur.data[cur.pos];
            cur.pos = cur.pos + 1;
            Some(b)
        } else {
            None
        }
    }
}

impl FromBytestream for bool {
    open spec fn decode_ok(data: Seq<u8>, pos: int) -> bool {
        pos + 1 <= data.len()
    }

    open spec fn decode_end(data: Seq<u8>, pos: int) -> int {
        if pos + 1 <= data.len() {
            pos + 1
        } else {
            pos
        }
    }

    open spec fn decodes_to(data: Seq<u8>, pos: int, v: bool) -> bool {
        pos + 1 <= data.len() && v == (data[pos] != 0)
    }

    fn next_data_le(cur: &mut ByteCursor) -> (r: Option<bool>) {
        if cur.pos < cur.data.len() {
            let b = cur.data[cur.pos];
            cur.pos = cur.pos + 1;
            Some(b != 0)
        } else {
            None
        }
    }
}

impl FromBytestream for i16 {
    open spec fn decode_ok(data: Seq<u8>, pos: int) -> bool {
        pos + 2 <= data.len()
    }

    open spec fn decode_end(data: Seq<u8>, pos: int) -> int {
        if pos + 2 <= data.len() {
            pos + 2
        } else {
            pos
        }
    }

    open spec fn decodes_to(data: Seq<u8>, pos: int, v: i16) -> bool {
        pos + 2 <= data.len() && v as int == le_i16_at(data, pos)
    }

    fn next_data_le(cur: &mut ByteCursor) -> (r: Option<i16>) {
        if cur.data.len() - cur.pos >= 2 {
            let b0 = cur.data[cur.pos];
            let b1 = cur.data[cur.pos + 1];
            cur.pos = cur.pos + 2;
            let v: u16 = b0 as u16 + (b1 as u16) * 0x100;
            let x: i16 = if v >= 0x8000 {
                -((0xFFFFu16 - v) as i16) - 1
            } else {
                v as i16
            };
            Some(x)
        } else {
            None
        }
    }
}

impl FromBytestream for i32 {
    open spec fn decode_ok(data: Seq<u8>, pos: int) -> bool {
        pos + 4 <= data.len()
    }

    open spec fn decode_end(data: Seq<u8>, pos: int) -> int {
        if pos + 4 <= data.len() {
            pos + 4
        } else {
            pos
        }
    }

    open spec fn decodes_to(data: Seq<u8>, pos: int, v: i32) -> bool {
        pos + 4 <= data.len() && v as int == le_i32_at(data, pos)
    }

    fn next_data_le(cur: &mut ByteCursor) -> (r: Option<i32>) {
        match u32::next_data_le(cur) {
            Some(v) => {
                let x: i32 = if v >= 0x80000000 {
                    -((0xFFFFFFFFu32 - v) as i32) - 1
                } else {
                    v as i32
                };
                Some(x)
            },
            None => None,
        }
    }
}

impl FromBytestream for u32 {
    open spec fn decode_ok(data: Seq<u8>, pos: int) -> bool {
        pos + 4 <= data.len()
    }

    open spec fn decode_end(data: Seq<u8>, pos: int) -> int {
        if pos + 4 <= data.len() {
            pos + 4
        } else {
            pos
        }
    }

    open spec fn decodes_to(data: Seq<u8>, pos: int, v: u32) -> bool {
        pos + 4 <= data.len() && v as int == le_u32_at(data, pos)
    }

    fn next_data_le(cur: &mut ByteCursor) -> (r: Option<u32>) {
        if cur.data.len() - cur.pos >= 4 {
            let b0 = cur.data[cur.pos];
            let b1 = cur.data[cur.pos + 1];
            let b2 = cur.data[cur.pos + 2];
            let b3 = cur.data[cur.pos + 3];
            cur.pos = cur.pos + 4;
            let v: u32 = b0 as u32 + (b1 as u32) * 0x100 + (b2 as u32) * 0x10000
                + (b3 as u32) * 0x1000000;
            Some(v)
        } else {
            None
        }
    }
}

impl FromBytestream for u64 {
    open spec fn decode_ok(data: Seq<u8>, pos: int) -> bool {
        pos + 8 <= data.len()
    }

    open spec fn decode_end(data: Seq<u8>, pos: int) -> int {
        if pos + 8 <= data.len() {
            pos + 8
        } else {
            pos
        }
    }

    open spec fn decodes_to(data: Seq<u8>, pos: int, v: u64) -> bool {
        pos + 8 <= data.len() && v as int == le_u64_at(data, pos)
    }

    fn next_data_le(cur: &mut ByteCursor) -> (r: Option<u64>) {
        if cur.data.len() - cur.pos >= 8 {
            let b0 = cur.data[cur.pos];
            let b1 = cur.data[cur.pos + 1];
            let b2 = cur.data[cur.pos + 2];
            let b3 = cur.data[cur.pos + 3];
            let b4 = cur.data[cur.pos + 4];
            let b5 = cur.data[cur.pos + 5];
            let b6 = cur.data[cur.pos + 6];
            let b7 = cur.data[cur.pos + 7];
            cur.pos = cur.pos + 8;
            let v: u64 = b0 as u64 + (b1 as u64) * 0x100 + (b2 as u64) * 0x10000
                + (b3 as u64) * 0x1000000 + (b4 as u64) * 0x100000000
                + (b5 as u64) * 0x10000000000 + (b6 as u64) * 0x1000000000000
                + (b7 as u64) * 0x100000000000000;
            Some(v)
        } else {
            None
        }
    }
}

impl FromBytestream for String {
    open spec fn decode_ok(data: Seq<u8>, pos: int) -> bool {
        true
    }

    open spec fn decode_end(data: Seq<u8>, pos: int) -> int {
        str_end(data, pos)
    }

    open spec fn decodes_to(data: Seq<u8>, pos: int, v: String) -> bool {
        v@ == lossy_utf8(str_body(data, pos))
    }

    fn next_data_le(cur: &mut ByteCursor) -> (r: Option<String>) {
        let ghost data: Seq<u8> = cur.data@;
        let ghost start: int = cur.pos as int;
        let mut body: Vec<u8> = Vec::new();
        while cur.pos < cur.data.len() && cur.data[cur.pos] != 0
            invariant
                0 <= start <= cur.pos as int <= cur.data@.len(),
                cur.data@ == data,
                null_pos(data, start) == null_pos(data, cur.pos as int),
                body@ == data.subrange(start, cur.pos as int),
            decreases cur.data@.len() - cur.pos,
        {
            let b = cur.data[cur.pos];
            body.push(b);
            cur.pos = cur.pos + 1;
            proof {
                assert_seqs_equal!(body@ == data.subrange(start, cur.pos as int));
            }
        }
        assert(null_pos(data, cur.pos as int) == cur.pos as int);
        let s = utf8_lossy(&body);
        if cur.pos < cur.data.len() {
            cur.pos = cur.pos + 1;
        }
        Some(s)
    }
}

/// Law: decoding any fixed-width primitive from fewer bytes than its width
/// yields nothing — never a partial value.
pub proof fn lemma_short_read_yields_nothing(data: Seq<u8>, pos: int)
    requires
        0 <= pos <= data.len(),
    ensures
        data.len() - pos < 1 ==> !<u8 as FromBytestream>::decode_ok(data, pos),
        data.len() - pos < 1 ==> !<bool as FromBytestream>::decode_ok(data, pos),
        data.len() - pos < 2 ==> !<i16 as FromBytestream>::decode_ok(data, pos),
        data.len() - pos < 4 ==> !<i32 as FromBytestream>::decode_ok(data, pos),
        data.len() - pos < 4 ==> !<u32 as FromBytestream>::decode_ok(data, pos),
        data.len() - pos < 8 ==> !<u64 as FromBytestream>::decode_ok(data, pos),
{
}

} // verus!
