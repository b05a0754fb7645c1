//! Chunking of messages that are too large for one datagram.
//!
//! A payload that fits one chunk goes out as it is. A larger one goes out as
//! a run of chunks, each behind a header of twelve bytes: the magic bytes
//! `1e 0f`, the message id in eight bytes, the number of the chunk and the
//! count of chunks in one byte each.

use crate::error::Error;
use crate::postprocessor::{
    append, frames, no_frames, one, one_frame, silent, Call, Outcome, Postprocessor,
};
use crate::wire::{be_bytes, u64_be};
use vstd::prelude::*;
use vstd::slice::{slice_subrange, slice_to_vec};

verus! {

/// The length of the header in front of every chunk.
pub const HEADER_LEN: usize = 12;

/// The payload bytes of a chunk that, with its header, fills a datagram of
/// 8192 bytes.
pub const DEFAULT_CHUNK_SIZE: usize = 8180;

/// The largest number of chunks of one message.
pub const DEFAULT_MAX_CHUNKS: u8 = 128;

/// Splits messages into chunks of at most `chunk_size` payload bytes, at most
/// `max_chunks` of them, and numbers the messages it splits.
pub struct Gelf {
    id: u64,
    chunk_size: usize,
    max_chunks: u8,
}

/// What a `Gelf` holds.
pub struct GelfView {
    /// The id that the next chunked message gets.
    pub id: u64,
    /// The largest number of payload bytes in one chunk; at least one.
    pub chunk_size: nat,
    /// The largest number of chunks of one message.
    pub max_chunks: nat,
}

impl View for Gelf {
    type V = GelfView;

    closed spec fn view(&self) -> GelfView {
        GelfView {
            id: self.id,
            chunk_size: self.chunk_size as nat,
            max_chunks: self.max_chunks as nat,
        }
    }
}

/// The number of chunks of `size` bytes that `len` bytes take: `len / size`,
/// rounded up.
pub open spec fn chunk_count(len: nat, size: nat) -> nat {
    if len % size == 0 {
        len / size
    } else {
        len / size + 1
    }
}

/// The header of chunk `index` out of `count` of the message `id`.
pub open spec fn chunk_header(id: u64, index: nat, count: nat) -> Seq<u8> {
    seq![0x1eu8, 0x0fu8] + be_bytes(id) + seq![index as u8, count as u8]
}

/// The slice of `data` that chunk `index` carries.
pub open spec fn chunk_payload(data: Seq<u8>, size: nat, index: nat) -> Seq<u8> {
    let from = (index * size) as int;
    let until = if from + size < data.len() {
        from + size
    } else {
        data.len() as int
    };
    data.subrange(from, until)
}

/// Chunk `index` of `data`: header, then payload.
pub open spec fn chunk(data: Seq<u8>, size: nat, id: u64, index: nat) -> Seq<u8> {
    chunk_header(id, index, chunk_count(data.len(), size)) + chunk_payload(data, size, index)
}

/// The chunks of `data` in the order of their numbers.
pub open spec fn chunks(data: Seq<u8>, size: nat, id: u64) -> Seq<Seq<u8>> {
    Seq::new(chunk_count(data.len(), size), |index: int| chunk(data, size, id, index as nat))
}

/// The id after `id`; the ids start over after the largest.
pub open spec fn next_id(id: u64) -> u64 {
    if id == u64::MAX {
        0
    } else {
        (id + 1) as u64
    }
}

/// Every chunk but the last starts inside the data, `size` bytes after the
/// one before it.
proof fn lemma_chunk_start(len: nat, size: nat, index: nat)
    requires
        size >= 1,
        index < chunk_count(len, size),
    ensures
        index * size < len,
        (index + 1) * size == index * size + size,
        index + 1 < chunk_count(len, size) ==> index * size + size < len,
        index + 1 == chunk_count(len, size) ==> index * size + size >= len,
{
    let q = len / size;
    let r = len % size;
    assert(len == q * size + r) by {
        vstd::arithmetic::div_mod::lemma_fundamental_div_mod(len as int, size as int);
        assert(size * q == q * size) by (nonlinear_arith);
    }
    assert((index + 1) * size == index * size + size) by (nonlinear_arith);
    if r == 0 {
        assert(index + 1 <= q);
        assert((index + 1) * size <= q * size) by (nonlinear_arith)
            requires
                index + 1 <= q,
        ;
        if index + 1 < q {
            assert((index + 2) * size <= q * size) by (nonlinear_arith)
                requires
                    index + 2 <= q,
            ;
            assert((index + 2) * size == index * size + size + size) by (nonlinear_arith);
        }
    } else {
        assert(index <= q);
        assert(index * size <= q * size) by (nonlinear_arith)
            requires
                index <= q,
        ;
        if index < q {
            assert((index + 1) * size <= q * size) by (nonlinear_arith)
                requires
                    index + 1 <= q,
            ;
        }
    }
}

impl Gelf {
    #[verifier::type_invariant]
    spec fn valid(self) -> bool {
        self.chunk_size >= 1
    }

    /// A chunker for chunks of at most `chunk_size` payload bytes and messages
    /// of at most `max_chunks` chunks, that numbers its messages from zero.
    /// There is none for chunks of no bytes.
    pub fn new(chunk_size: usize, max_chunks: u8) -> (r: Option<Self>)
        ensures
            match r {
                Some(gelf) => chunk_size > 0 && gelf@ == (GelfView {
                    id: 0,
                    chunk_size: chunk_size as nat,
                    max_chunks: max_chunks as nat,
                }),
                None => chunk_size == 0,
            },
    {
        if chunk_size == 0 {
            None
        } else {
            Some(Gelf { id: 0, chunk_size, max_chunks })
        }
    }

    /// The id that the next chunked message gets.
    pub fn id(&self) -> (r: u64)
        ensures
            r == self@.id,
    {
        self.id
    }

    /// The largest number of payload bytes in one chunk.
    pub fn chunk_size(&self) -> (r: usize)
        ensures
            r == self@.chunk_size,
            r >= 1,
    {
        proof {
            use_type_invariant(self);
        }
        self.chunk_size
    }

    /// The largest number of chunks of one message.
    pub fn max_chunks(&self) -> (r: u8)
        ensures
            r == self@.max_chunks,
    {
        self.max_chunks
    }

    /// The chunks of `data`, which is more than one chunk holds, under the
    /// message id `id`.
    fn encode_gelf(data: &[u8], size: usize, count: usize, id: u64) -> (r: Vec<Vec<u8>>)
        requires
            size >= 1,
            count == chunk_count(data@.len(), size as nat),
            count <= u8::MAX,
        ensures
            frames(r) == chunks(data@, size as nat, id),
    {
        let len = data.len();
        let id_bytes = u64_be(id);
        let mut out: Vec<Vec<u8>> = Vec::new();
        let mut index: usize = 0;
        let mut from: usize = 0;
        while index < count
            invariant
                size >= 1,
                len == data@.len(),
                count == chunk_count(data@.len(), size as nat),
                count <= u8::MAX,
                id_bytes@ == be_bytes(id),
                index <= count,
                index < count ==> from == index * size,
                out@.len() == index,
                forall|j: int|
                    0 <= j < index ==> (#[trigger] out@[j])@ == chunk(
                        data@,
                        size as nat,
                        id,
                        j as nat,
                    ),
            decreases count - index,
        {
            proof {
                lemma_chunk_start(len as nat, size as nat, index as nat);
            }
            let until = if len - from > size {
                from + size
            } else {
                len
            };
            let mut frame: Vec<u8> = Vec::new();
            frame.push(0x1e);
            frame.push(0x0f);
            append(&mut frame, &id_bytes);
            frame.push(index as u8);
            frame.push(count as u8);
            append(&mut frame, slice_subrange(data, from, until));
            assert(frame@ =~= chunk(data@, size as nat, id, index as nat));
            out.push(frame);
            index = index + 1;
            from = until;
        }
        assert(frames(out) =~= chunks(data@, size as nat, id));
        out
    }
}

/// The payload bytes of a chunk: what follows its header.
pub open spec fn payload_of(frame: Seq<u8>) -> Seq<u8> {
    frame.skip(HEADER_LEN as int)
}

/// The payloads of `frames` put together in the order of the frames.
pub open spec fn reassembled(frames: Seq<Seq<u8>>) -> Seq<u8>
    decreases frames.len(),
{
    if frames.len() == 0 {
        Seq::empty()
    } else {
        reassembled(frames.drop_last()) + payload_of(frames.last())
    }
}

/// The payloads of the first `k` chunks are the data up to the start of
/// chunk `k`.
proof fn lemma_reassembled_prefix(data: Seq<u8>, size: nat, id: u64, k: nat)
    requires
        size >= 1,
        k <= chunk_count(data.len(), size),
    ensures
        reassembled(chunks(data, size, id).take(k as int)) == data.take(
            if k * size < data.len() {
                (k * size) as int
            } else {
                data.len() as int
            },
        ),
    decreases k,
{
    let all = chunks(data, size, id);
    let some = all.take(k as int);
    if k == 0 {
        assert(0 * size == 0) by (nonlinear_arith);
        assert(data.take(0) =~= reassembled(some));
    } else {
        let j = (k - 1) as nat;
        lemma_reassembled_prefix(data, size, id, j);
        lemma_chunk_start(data.len(), size, j);
        assert(some.drop_last() =~= all.take(j as int));
        assert(some.last() == chunk(data, size, id, j));
        assert(chunk_header(id, j, chunk_count(data.len(), size)).len() == HEADER_LEN);
        assert(payload_of(some.last()) =~= chunk_payload(data, size, j));
        let until = if k * size < data.len() {
            (k * size) as int
        } else {
            data.len() as int
        };
        assert(data.take((j * size) as int) + chunk_payload(data, size, j) =~= data.take(until));
    }
}

/// Chunk reassembly. A payload that is larger than a chunk is either refused,
/// where it needs more chunks than allowed, or comes out as its chunks: two
/// or more, each with the magic bytes, the id of the message, its own number
/// and the count of all, and between one and `chunk_size` bytes of payload;
/// the payloads put together in the order of the numbers are the payload that
/// came in.
pub proof fn lemma_chunks_reassemble(
    gelf: Gelf,
    ingres_ns: u64,
    egress_ns: u64,
    data: Seq<u8>,
    outcome: Outcome,
    next: Gelf,
)
    requires
        gelf@.chunk_size >= 1,
        data.len() > gelf@.chunk_size,
        gelf.yields(Call::Process { ingres_ns, egress_ns, data }, outcome, next),
    ensures
        outcome is Ok <==> chunk_count(data.len(), gelf@.chunk_size) <= gelf@.max_chunks,
        outcome matches Ok(made) ==> {
            &&& 2 <= made.len() == chunk_count(data.len(), gelf@.chunk_size) <= u8::MAX
            &&& forall|i: int|
                0 <= i < made.len() ==> {
                    &&& (#[trigger] made[i]).len() > HEADER_LEN
                    &&& made[i].take(2) == seq![0x1eu8, 0x0fu8]
                    &&& made[i].subrange(2, 10) == be_bytes(gelf@.id)
                    &&& made[i][10] == i
                    &&& made[i][11] == made.len()
                    &&& payload_of(made[i]).len() <= gelf@.chunk_size
                }
            &&& reassembled(made) == data
        },
{
    let size = gelf@.chunk_size;
    let count = chunk_count(data.len(), size);
    if count <= gelf@.max_chunks {
        let made = chunks(data, size, gelf@.id);
        assert(count >= 2) by {
            if count < 2 {
                if count == 1 {
                    lemma_chunk_start(data.len(), size, 0);
                    assert(0 * size == 0) by (nonlinear_arith);
                } else {
                    vstd::arithmetic::div_mod::lemma_fundamental_div_mod(
                        data.len() as int,
                        size as int,
                    );
                    assert(size * 0 == 0) by (nonlinear_arith);
                }
            }
        }
        assert forall|i: int| 0 <= i < made.len() implies {
            &&& (#[trigger] made[i]).len() > HEADER_LEN
            &&& made[i].take(2) == seq![0x1eu8, 0x0fu8]
            &&& made[i].subrange(2, 10) == be_bytes(gelf@.id)
            &&& made[i][10] == i
            &&& made[i][11] == made.len()
            &&& payload_of(made[i]).len() <= size
        } by {
            lemma_chunk_start(data.len(), size, i as nat);
            let header = chunk_header(gelf@.id, i as nat, count);
            assert(header.len() == HEADER_LEN);
            assert(made[i] == header + chunk_payload(data, size, i as nat));
            assert(made[i].take(2) =~= seq![0x1eu8, 0x0fu8]);
            assert(made[i].subrange(2, 10) =~= be_bytes(gelf@.id));
            assert(payload_of(made[i]) =~= chunk_payload(data, size, i as nat));
        }
        lemma_reassembled_prefix(data, size, gelf@.id, count);
        assert(made.take(count as int) =~= made);
        assert(count * size >= data.len()) by {
            lemma_chunk_start(data.len(), size, (count - 1) as nat);
        }
        assert(data.take(data.len() as int) =~= data);
    }
}

/// Small-message passthrough. A payload that fits one chunk comes out as the
/// one frame that it is, with no header, and uses up no message id.
pub proof fn lemma_small_message_passes(
    gelf: Gelf,
    ingres_ns: u64,
    egress_ns: u64,
    data: Seq<u8>,
    outcome: Outcome,
    next: Gelf,
)
    requires
        data.len() <= gelf@.chunk_size,
        gelf.yields(Call::Process { ingres_ns, egress_ns, data }, outcome, next),
    ensures
        outcome == one(data),
        next@ == gelf@,
{
}

/// Oversized chunk rejection. A payload that needs more chunks than allowed
/// is refused with the count it needs and the count allowed; no frame comes
/// out and no message id is used up.
pub proof fn lemma_oversized_message_fails(
    gelf: Gelf,
    ingres_ns: u64,
    egress_ns: u64,
    data: Seq<u8>,
    outcome: Outcome,
    next: Gelf,
)
    requires
        data.len() > gelf@.chunk_size,
        chunk_count(data.len(), gelf@.chunk_size) > gelf@.max_chunks,
        gelf.yields(Call::Process { ingres_ns, egress_ns, data }, outcome, next),
    ensures
        outcome matches Err(Error::OversizedMessage { chunks, max_chunks }) && chunks
            == chunk_count(data.len(), gelf@.chunk_size) as usize && max_chunks
            == gelf@.max_chunks,
        next@ == gelf@,
{
}

impl Default for Gelf {
    /// A chunker with the default chunk size and the default bound on the
    /// number of chunks.
    fn default() -> (r: Self)
        ensures
            r@ == (GelfView {
                id: 0,
                chunk_size: DEFAULT_CHUNK_SIZE as nat,
                max_chunks: DEFAULT_MAX_CHUNKS as nat,
            }),
    {
        Gelf { id: 0, chunk_size: DEFAULT_CHUNK_SIZE, max_chunks: DEFAULT_MAX_CHUNKS }
    }
}

impl Postprocessor for Gelf {
    open spec fn spec_name(&self) -> Seq<char> {
        "gelf"@
    }

    open spec fn yields(&self, call: Call, outcome: Outcome, next: Self) -> bool {
        match call {
            Call::Process { data, .. } => {
                let count = chunk_count(data.len(), self@.chunk_size);
                if data.len() <= self@.chunk_size {
                    &&& outcome == one(data)
                    &&& next@ == self@
                } else if count > self@.max_chunks {
                    &&& outcome == Err::<Seq<Seq<u8>>, Error>(
                        Error::OversizedMessage {
                            chunks: count as usize,
                            max_chunks: self@.max_chunks as usize,
                        },
                    )
                    &&& next@ == self@
                } else {
                    &&& outcome == Ok::<Seq<Seq<u8>>, Error>(
                        chunks(data, self@.chunk_size, self@.id),
                    )
                    &&& next@ == (GelfView { id: next_id(self@.id), ..self@ })
                }
            },
            Call::Finish { .. } => {
                &&& outcome == silent()
                &&& next@ == self@
            },
        }
    }

    fn name(&self) -> (r: &str) {
        "gelf"
    }

    fn process(&mut self, ingres_ns: u64, egress_ns: u64, data: &[u8]) -> (r: Result<
        Vec<Vec<u8>>,
        Error,
    >) {
        proof {
            use_type_invariant(&*self);
        }
        let size = self.chunk_size;
        if data.len() <= size {
            return Ok(one_frame(slice_to_vec(data)));
        }
        let count = if data.len() % size == 0 {
            data.len() / size
        } else {
            proof {
                assert(size >= 2);
                vstd::arithmetic::div_mod::lemma_div_decreases(data.len() as int, size as int);
            }
            data.len() / size + 1
        };
        if count > self.max_chunks as usize {
            return Err(
                Error::OversizedMessage { chunks: count, max_chunks: self.max_chunks as usize },
            );
        }
        let id = self.id;
        self.id = if id == u64::MAX {
            0
        } else {
            id + 1
        };
        Ok(Self::encode_gelf(data, size, count, id))
    }

    fn finish(&mut self, data: Option<&[u8]>) -> (r: Result<Vec<Vec<u8>>, Error>) {
        Ok(no_frames())
    }
}

} // verus!
