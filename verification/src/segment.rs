//! Fixed-size segmentation of a byte stream.
//!
//! `segments_of` is the mathematical segmentation of a payload; `Segmenter`
//! is the incremental state machine that produces it from chunks that arrive
//! one at a time, and `segment_all` runs that machine over chunks already in
//! memory.

use crate::buffer::{
    buffer_bytes, buffer_extend, buffer_len, buffer_split_to, buffer_with_capacity,
};
use bytes::BytesMut;
use vstd::prelude::*;
use vstd::slice::slice_subrange;

verus! {

/// The length of every segment but, possibly, the last one of a stream.
pub const SEGMENT_SIZE: usize = 1_048_576;

/// How many segments a payload of `len` bytes is cut into: `len / SEGMENT_SIZE`,
/// rounded up.
pub open spec fn segment_count(len: nat) -> nat {
    ((len + SEGMENT_SIZE - 1) / (SEGMENT_SIZE as int)) as nat
}

/// The `i`-th segment of `data`: the bytes from `i * SEGMENT_SIZE` up to the
/// next multiple of `SEGMENT_SIZE`, or up to the end of `data` if that comes
/// first.
pub open spec fn segment_at(data: Seq<u8>, i: int) -> Seq<u8> {
    let start = i * SEGMENT_SIZE;
    let end = if start + SEGMENT_SIZE <= data.len() {
        start + SEGMENT_SIZE
    } else {
        data.len() as int
    };
    data.subrange(start, end)
}

/// The segmentation of a payload.
pub open spec fn segments_of(data: Seq<u8>) -> Seq<Seq<u8>> {
    Seq::new(segment_count(data.len()), |i: int| segment_at(data, i))
}

/// A payload has no segments exactly when it is empty, and otherwise
/// `len / SEGMENT_SIZE` of them, plus one if a remainder is left.
pub proof fn lemma_segment_count(data: Seq<u8>)
    ensures
        segments_of(data).len() == segment_count(data.len()),
        data.len() % (SEGMENT_SIZE as nat) == 0 ==> segment_count(data.len()) == data.len() / (
        SEGMENT_SIZE as nat),
        data.len() % (SEGMENT_SIZE as nat) != 0 ==> segment_count(data.len()) == data.len() / (
        SEGMENT_SIZE as nat) + 1,
        segment_count(data.len()) == 0 <==> data.len() == 0,
{
}

/// Every segment but the last is exactly `SEGMENT_SIZE` long. The last one is
/// never empty, and is shorter than `SEGMENT_SIZE` exactly when the payload's
/// length is not a multiple of `SEGMENT_SIZE`.
pub proof fn lemma_segment_lengths(data: Seq<u8>, i: int)
    requires
        0 <= i < segment_count(data.len()),
    ensures
        i < segment_count(data.len()) - 1 ==> segments_of(data)[i].len() == SEGMENT_SIZE,
        0 < segments_of(data)[i].len() <= SEGMENT_SIZE,
        i == segment_count(data.len()) - 1 ==> (segments_of(data)[i].len() < SEGMENT_SIZE
            <==> data.len() % (SEGMENT_SIZE as nat) != 0),
        i == segment_count(data.len()) - 1 ==> segments_of(data)[i].len() == data.len() - i
            * SEGMENT_SIZE,
{
}

/// Cutting off the last segment of a payload leaves the segmentation of what
/// comes before it.
proof fn lemma_segments_drop_last(data: Seq<u8>)
    requires
        data.len() > 0,
    ensures
        segments_of(data).drop_last() == segments_of(
            data.take((segment_count(data.len()) - 1) * SEGMENT_SIZE),
        ),
        data == data.take((segment_count(data.len()) - 1) * SEGMENT_SIZE) + segments_of(
            data,
        ).last(),
{
    let n = segment_count(data.len());
    let head = data.take((n - 1) * SEGMENT_SIZE);
    assert(segment_count(head.len()) == n - 1);
    assert forall|i: int| 0 <= i < n - 1 implies segment_at(head, i) == segment_at(data, i) by {
        assert(segment_at(head, i) =~= segment_at(data, i));
    }
    assert(segments_of(data).drop_last() =~= segments_of(head));
    assert(data =~= head + segments_of(data).last());
}

/// The segments of a payload, joined in order, are the payload.
pub proof fn lemma_segments_rejoin(data: Seq<u8>)
    ensures
        segments_of(data).flatten() == data,
    decreases data.len(),
{
    if data.len() == 0 {
        assert(segments_of(data) =~= Seq::<Seq<u8>>::empty());
        assert(data =~= Seq::<u8>::empty());
    } else {
        let n = segment_count(data.len());
        let head = data.take((n - 1) * SEGMENT_SIZE);
        lemma_segments_drop_last(data);
        lemma_segments_rejoin(head);
        let segs = segments_of(data);
        assert(segs =~= segs.drop_last().push(segs.last()));
        segs.drop_last().lemma_flatten_push(segs.last());
    }
}

/// Where a segmenter stands in the life of its stream.
#[derive(Clone, Copy, Debug, PartialEq, Eq, Structural)]
pub enum Phase {
    /// The inbound stream is open: chunks may still arrive.
    Reading,
    /// The inbound stream ended and everything received has been emitted.
    Finished,
    /// A read of the inbound stream failed; nothing more is emitted.
    Failed,
}

/// What a read of the inbound stream produced.
pub enum Inbound<'a> {
    /// The next chunk, of any length.
    Chunk(&'a [u8]),
    /// The stream has no more chunks.
    End,
    /// The read failed.
    Failure,
}

/// What the driver of a segmenter has to do next.
pub enum Step {
    /// Read the inbound stream once and hand the outcome to `advance`.
    Read,
    /// Deliver this segment downstream; on the next pull, call `pull`.
    Emit(Vec<u8>),
    /// The stream is complete: no segment is left.
    Done,
    /// The stream failed: report the read error, deliver nothing more.
    Abort,
}

/// The segmentation state machine: one carry buffer between an inbound
/// stream of chunks and an outbound stream of segments.
///
/// The driver calls `pull` whenever a segment is asked for. While the answer
/// is `Step::Read` it reads the inbound stream once and calls `advance` with
/// what came of it, until a step other than `Read` comes back.
pub struct Segmenter {
    carry: BytesMut,
    phase: Phase,
    received: Ghost<Seq<u8>>,
    emitted: Ghost<Seq<Seq<u8>>>,
}

impl Segmenter {
    /// The bytes in the carry buffer: received, not yet emitted.
    pub closed spec fn buffered(&self) -> Seq<u8> {
        buffer_bytes(self.carry)
    }

    /// Where the machine stands in the life of its stream.
    pub closed spec fn phase(&self) -> Phase {
        self.phase
    }

    /// Every byte received so far, in order of arrival.
    pub closed spec fn received(&self) -> Seq<u8> {
        self.received@
    }

    /// Every segment emitted so far, in order of emission.
    pub closed spec fn emitted(&self) -> Seq<Seq<u8>> {
        self.emitted@
    }

    /// The invariant of the machine. The carry buffer is the tail of what was
    /// received, and the segments emitted are the segmentation of what came
    /// before that tail. Until the stream has finished that part is a whole
    /// number of segments, so no short segment has been emitted; once it has
    /// finished nothing is left in the buffer.
    pub open spec fn wf(&self) -> bool {
        let consumed = self.received().len() - self.buffered().len();
        &&& consumed >= 0
        &&& self.buffered() == self.received().skip(consumed)
        &&& self.emitted() == segments_of(self.received().take(consumed))
        &&& self.phase() is Finished ==> self.buffered().len() == 0
        &&& !(self.phase() is Finished) ==> consumed % (SEGMENT_SIZE as int) == 0
    }

    /// Whether the machine is waiting for the inbound stream: it is open and
    /// the carry buffer holds less than one segment.
    pub open spec fn wants_input(&self) -> bool {
        self.phase() is Reading && self.buffered().len() < SEGMENT_SIZE
    }

    /// A segmenter at the start of a stream.
    pub fn new() -> (s: Self)
        ensures
            s.wf(),
            s.phase() is Reading,
            s.received() == Seq::<u8>::empty(),
            s.emitted() == Seq::<Seq<u8>>::empty(),
            s.buffered() == Seq::<u8>::empty(),
    {
        let s = Segmenter {
            carry: buffer_with_capacity(2 * SEGMENT_SIZE),
            phase: Phase::Reading,
            received: Ghost(Seq::empty()),
            emitted: Ghost(Seq::empty()),
        };
        assert(s.received().take(0) =~= Seq::<u8>::empty());
        assert(s.received().skip(0) =~= Seq::<u8>::empty());
        assert(segments_of(Seq::<u8>::empty()) =~= Seq::<Seq<u8>>::empty());
        s
    }

    /// Exec form of `wants_input`.
    pub fn needs_input(&self) -> (b: bool)
        ensures
            b == self.wants_input(),
    {
        match self.phase {
            Phase::Reading => buffer_len(&self.carry) < SEGMENT_SIZE,
            _ => false,
        }
    }

    /// The number of bytes in the carry buffer.
    pub fn buffered_len(&self) -> (n: usize)
        ensures
            n == self.buffered().len(),
    {
        buffer_len(&self.carry)
    }

    /// Splits one full segment off the front of the carry buffer.
    fn emit_full(&mut self) -> (segment: Vec<u8>)
        requires
            old(self).wf(),
            old(self).phase() is Reading,
            old(self).buffered().len() >= SEGMENT_SIZE,
        ensures
            final(self).wf(),
            final(self).phase() is Reading,
            final(self).received() == old(self).received(),
            segment@ == old(self).buffered().take(SEGMENT_SIZE as int),
            final(self).buffered() == old(self).buffered().skip(SEGMENT_SIZE as int),
            final(self).emitted() == old(self).emitted().push(segment@),
    {
        let ghost before = *self;
        let segment = buffer_split_to(&mut self.carry, SEGMENT_SIZE);
        self.emitted = Ghost(self.emitted@.push(segment@));
        proof {
            let data = self.received();
            let consumed = data.len() - before.buffered().len();
            let head = data.take(consumed + SEGMENT_SIZE);
            assert(segment_count(head.len()) == segment_count(consumed as nat) + 1);
            lemma_segments_drop_last(head);
            assert(head.take(consumed) =~= data.take(consumed));
            assert(segments_of(head).last() =~= segment@);
            assert(segments_of(head) =~= segments_of(head).drop_last().push(segment@));
            assert(self.buffered() =~= data.skip(consumed + SEGMENT_SIZE));
        }
        segment
    }

    /// Answers a request for the next segment from what the machine already
    /// holds. A full segment in the carry buffer is emitted without reading;
    /// otherwise the answer says whether to read, or how the stream ended.
    pub fn pull(&mut self) -> (step: Step)
        requires
            old(self).wf(),
        ensures
            final(self).wf(),
            final(self).received() == old(self).received(),
            match step {
                Step::Emit(segment) => {
                    &&& old(self).phase() is Reading
                    &&& old(self).buffered().len() >= SEGMENT_SIZE
                    &&& segment@ == old(self).buffered().take(SEGMENT_SIZE as int)
                    &&& final(self).buffered() == old(self).buffered().skip(SEGMENT_SIZE as int)
                    &&& final(self).emitted() == old(self).emitted().push(segment@)
                    &&& final(self).phase() is Reading
                },
                Step::Read => old(self).wants_input() && *final(self) == *old(self),
                Step::Done => old(self).phase() is Finished && *final(self) == *old(self),
                Step::Abort => old(self).phase() is Failed && *final(self) == *old(self),
            },
    {
        match self.phase {
            Phase::Finished => Step::Done,
            Phase::Failed => Step::Abort,
            Phase::Reading => {
                if buffer_len(&self.carry) >= SEGMENT_SIZE {
                    Step::Emit(self.emit_full())
                } else {
                    Step::Read
                }
            },
        }
    }

    /// Takes in what one read of the inbound stream produced, and says what
    /// follows.
    ///
    /// A chunk is appended to the carry buffer; if that fills a segment, the
    /// segment is emitted and the rest is kept for the next pull. At the end
    /// of the stream what is left in the buffer is emitted as one last, short
    /// segment, unless nothing is left. A failed read ends the stream with no
    /// further segment.
    ///
    /// It is called only after a `Step::Read`, that is, while the machine
    /// `wants_input`; and the chunk must fit into the buffer beside what is
    /// already there, which no allocation over `isize::MAX` bytes can hold.
    pub fn advance(&mut self, input: Inbound<'_>) -> (step: Step)
        requires
            old(self).wf(),
            old(self).wants_input(),
            input matches Inbound::Chunk(chunk) ==> old(self).buffered().len() + chunk@.len()
                <= isize::MAX,
        ensures
            final(self).wf(),
            match input {
                Inbound::Chunk(chunk) => {
                    let pending = old(self).buffered() + chunk@;
                    &&& final(self).received() == old(self).received() + chunk@
                    &&& final(self).phase() is Reading
                    &&& final(self).buffered().len() < SEGMENT_SIZE + chunk@.len()
                    &&& if pending.len() >= SEGMENT_SIZE {
                        &&& step matches Step::Emit(segment)
                        &&& segment@ == pending.take(SEGMENT_SIZE as int)
                        &&& final(self).buffered() == pending.skip(SEGMENT_SIZE as int)
                        &&& final(self).emitted() == old(self).emitted().push(segment@)
                    } else {
                        &&& step is Read
                        &&& final(self).buffered() == pending
                        &&& final(self).emitted() == old(self).emitted()
                    }
                },
                Inbound::End => {
                    &&& final(self).received() == old(self).received()
                    &&& final(self).phase() is Finished
                    &&& final(self).emitted() == segments_of(old(self).received())
                    &&& if old(self).buffered().len() > 0 {
                        &&& step matches Step::Emit(segment)
                        &&& segment@ == old(self).buffered()
                        &&& final(self).emitted() == old(self).emitted().push(segment@)
                    } else {
                        &&& step is Done
                        &&& final(self).emitted() == old(self).emitted()
                    }
                },
                Inbound::Failure => {
                    &&& step is Abort
                    &&& final(self).phase() is Failed
                    &&& final(self).received() == old(self).received()
                    &&& final(self).emitted() == old(self).emitted()
                    &&& final(self).buffered() == old(self).buffered()
                },
            },
    {
        let ghost before = *self;
        match input {
            Inbound::Chunk(chunk) => {
                buffer_extend(&mut self.carry, chunk);
                self.received = Ghost(self.received@ + chunk@);
                proof {
                    let consumed = before.received().len() - before.buffered().len();
                    assert(self.received().take(consumed) =~= before.received().take(consumed));
                    assert(self.received().skip(consumed) =~= before.buffered() + chunk@);
                }
                if buffer_len(&self.carry) >= SEGMENT_SIZE {
                    Step::Emit(self.emit_full())
                } else {
                    Step::Read
                }
            },
            Inbound::End => {
                let left = buffer_len(&self.carry);
                self.phase = Phase::Finished;
                if left > 0 {
                    let segment = buffer_split_to(&mut self.carry, left);
                    self.emitted = Ghost(self.emitted@.push(segment@));
                    proof {
                        let data = self.received();
                        let consumed = data.len() - before.buffered().len();
                        assert(segment@ =~= before.buffered());
                        assert(segment_count(data.len()) == segment_count(consumed as nat) + 1);
                        lemma_segments_drop_last(data);
                        assert(segments_of(data).last() =~= segment@);
                        assert(segments_of(data) =~= segments_of(data).drop_last().push(
                            segment@,
                        ));
                        assert(data.take(data.len() as int) =~= data);
                        assert(self.buffered() =~= data.skip(data.len() as int));
                    }
                    Step::Emit(segment)
                } else {
                    proof {
                        let data = self.received();
                        assert(data.take(data.len() as int) =~= data);
                    }
                    Step::Done
                }
            },
            Inbound::Failure => {
                self.phase = Phase::Failed;
                Step::Abort
            },
        }
    }
}

/// Nothing is lost or reordered, in any state: the segments emitted so far,
/// joined, and then the carry buffer are exactly the bytes received so far.
pub proof fn lemma_nothing_is_lost(machine: Segmenter)
    requires
        machine.wf(),
    ensures
        machine.emitted().flatten() + machine.buffered() == machine.received(),
{
    let consumed = machine.received().len() - machine.buffered().len();
    lemma_segments_rejoin(machine.received().take(consumed));
    assert(machine.received().take(consumed) + machine.received().skip(consumed)
        =~= machine.received());
}

/// While the stream has not finished, every segment emitted is a full one.
pub proof fn lemma_no_short_segment_before_the_end(machine: Segmenter, i: int)
    requires
        machine.wf(),
        !(machine.phase() is Finished),
        0 <= i < machine.emitted().len(),
    ensures
        machine.emitted()[i].len() == SEGMENT_SIZE,
{
}

/// Once the stream has finished, what was emitted is the segmentation of
/// what was received: the segments join to the received bytes, and there are
/// as many of them as the length over `SEGMENT_SIZE`, rounded up.
pub proof fn lemma_finished_stream_is_segmented(machine: Segmenter)
    requires
        machine.wf(),
        machine.phase() is Finished,
    ensures
        machine.emitted() == segments_of(machine.received()),
        machine.emitted().flatten() == machine.received(),
        machine.emitted().len() == segment_count(machine.received().len()),
{
    let data = machine.received();
    assert(data.take(data.len() as int) =~= data);
    lemma_segments_rejoin(data);
}

/// All the bytes of a list of chunks, in order.
pub open spec fn joined(chunks: Seq<Vec<u8>>) -> Seq<u8> {
    chunks.map_values(|chunk: Vec<u8>| chunk@).flatten()
}

/// The byte contents of a list of segments.
pub open spec fn contents(segments: Seq<Vec<u8>>) -> Seq<Seq<u8>> {
    segments.map_values(|segment: Vec<u8>| segment@)
}

proof fn lemma_joined_push(chunks: Seq<Vec<u8>>, i: int)
    requires
        0 <= i < chunks.len(),
    ensures
        joined(chunks.take(i + 1)) == joined(chunks.take(i)) + chunks[i]@,
{
    let f = |chunk: Vec<u8>| chunk@;
    assert(chunks.take(i + 1).map_values(f) =~= chunks.take(i).map_values(f).push(chunks[i]@));
    chunks.take(i).map_values(f).lemma_flatten_push(chunks[i]@);
}

/// Segments a stream whose chunks are all in memory: the segments that a
/// `Segmenter` emits when it is fed the chunks in order and then the end of
/// the stream. They are the segmentation of the chunks' concatenation,
/// whatever the sizes of the chunks.
///
/// A chunk is fed in pieces of at most one segment each, so the carry buffer
/// never holds as much as two segments.
pub fn segment_all(chunks: &[Vec<u8>]) -> (segments: Vec<Vec<u8>>)
    ensures
        contents(segments@) == segments_of(joined(chunks@)),
{
    let mut machine = Segmenter::new();
    let mut segments: Vec<Vec<u8>> = Vec::new();
    assert(joined(chunks@.take(0)) =~= Seq::<u8>::empty()) by {
        assert(chunks@.take(0).map_values(|chunk: Vec<u8>| chunk@) =~= Seq::<Seq<u8>>::empty());
    }
    assert(contents(segments@) =~= machine.emitted());
    let mut i: usize = 0;
    while i < chunks.len()
        invariant
            0 <= i <= chunks.len(),
            machine.wf(),
            machine.wants_input(),
            machine.received() == joined(chunks@.take(i as int)),
            contents(segments@) == machine.emitted(),
        decreases chunks.len() - i,
    {
        let chunk = chunks[i].as_slice();
        let ghost before = machine.received();
        let mut done: usize = 0;
        assert(chunk@.take(0) =~= Seq::<u8>::empty());
        while done < chunk.len()
            invariant
                0 <= done <= chunk.len(),
                machine.wf(),
                machine.wants_input(),
                machine.received() == before + chunk@.take(done as int),
                contents(segments@) == machine.emitted(),
            decreases chunk.len() - done,
        {
            let end = if chunk.len() - done > SEGMENT_SIZE {
                done + SEGMENT_SIZE
            } else {
                chunk.len()
            };
            let piece = slice_subrange(chunk, done, end);
            assert(chunk@.take(end as int) =~= chunk@.take(done as int) + piece@);
            let ghost emitted = machine.emitted();
            match machine.advance(Inbound::Chunk(piece)) {
                Step::Emit(segment) => {
                    segments.push(segment);
                    assert(contents(segments@) =~= emitted.push(segment@));
                },
                _ => {},
            }
            done = end;
        }
        proof {
            assert(chunk@.take(chunk@.len() as int) =~= chunk@);
            lemma_joined_push(chunks@, i as int);
        }
        i += 1;
    }
    assert(chunks@.take(chunks@.len() as int) =~= chunks@);
    let ghost emitted = machine.emitted();
    match machine.advance(Inbound::End) {
        Step::Emit(segment) => {
            segments.push(segment);
            assert(contents(segments@) =~= emitted.push(segment@));
        },
        _ => {},
    }
    segments
}

} // verus!
