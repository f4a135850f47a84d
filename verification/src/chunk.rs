//! Byte-stream view over notification chunks.

use vstd::prelude::*;

verus! {

/// Doles the current notification chunk out across as many reads as the
/// caller's buffer needs. The chunks themselves come from a channel that the
/// program owns; the reader says when it needs the next one.
///
/// The view is what is still to be handed out of the current chunk.
pub struct ChunkReader {
    pending: Vec<u8>,
    pos: usize,
}

/// What a read came to.
pub enum ReadStep {
    /// This many bytes were put at the front of the buffer.
    Read(usize),
    /// Nothing is left: hand the next chunk to [`ChunkReader::receive`].
    NeedChunk,
}

impl View for ChunkReader {
    type V = Seq<u8>;

    closed spec fn view(&self) -> Seq<u8> {
        self.pending@.skip(self.pos as int)
    }
}

/// What a read with room for `room` bytes hands out of the bytes left.
pub open spec fn handed_out(left: Seq<u8>, room: nat) -> Seq<u8> {
    if room < left.len() {
        left.take(room as int)
    } else {
        left
    }
}

impl ChunkReader {
    #[verifier::type_invariant]
    spec fn in_bounds(self) -> bool {
        self.pos <= self.pending.len()
    }

    /// A reader before the first chunk.
    pub fn new() -> (reader: Self)
        ensures
            reader@ == Seq::<u8>::empty(),
    {
        ChunkReader { pending: Vec::new(), pos: 0 }
    }

    /// Hands out the next bytes of the current chunk, or asks for a chunk
    /// without touching anything.
    pub fn read(&mut self, buf: &mut [u8]) -> (step: ReadStep)
        ensures
            match step {
                ReadStep::Read(n) => {
                    let out = handed_out(old(self)@, old(buf)@.len());
                    &&& old(self)@.len() > 0
                    &&& n == out.len()
                    &&& final(buf)@ == out + old(buf)@.skip(n as int)
                    &&& n <= old(self)@.len() && n <= old(buf)@.len()
                    &&& n == old(self)@.len() || n == old(buf)@.len()
                    &&& final(buf)@ == old(self)@.take(n as int) + old(buf)@.skip(n as int)
                    &&& final(self)@ == old(self)@.skip(n as int)
                    &&& final(self)@ == left_after(
                        old(self)@,
                        ReaderEvent::Read(old(buf)@.len()),
                    )
                },
                ReadStep::NeedChunk => {
                    &&& old(self)@.len() == 0
                    &&& final(buf)@ == old(buf)@
                    &&& final(self)@ == old(self)@
                },
            },
    {
        proof {
            use_type_invariant(&*self);
        }
        if self.pos >= self.pending.len() {
            return ReadStep::NeedChunk;
        }
        let left: usize = self.pending.len() - self.pos;
        let n: usize = if buf.len() < left {
            buf.len()
        } else {
            left
        };
        let ghost before = buf@;
        let mut i: usize = 0;
        while i < n
            invariant
                i <= n,
                n <= before.len(),
                self.pos + n <= self.pending.len(),
                *self == *old(self),
                buf@ == self.pending@.subrange(self.pos as int, self.pos + i) + before.skip(i as int),
            decreases n - i,
        {
            buf[i] = self.pending[self.pos + i];
            i = i + 1;
        }
        self.pos = self.pos + n;
        ReadStep::Read(n)
    }

    /// Takes what the channel gave after [`ChunkReader::read`] asked for a
    /// chunk. `None` in means that the channel is closed and drained: the read
    /// is over with `Some(0)` bytes, the end of the stream. After a chunk, even
    /// an empty one, the read goes on.
    pub fn receive(&mut self, chunk: Option<Vec<u8>>) -> (ended: Option<usize>)
        requires
            old(self)@.len() == 0,
        ensures
            match chunk {
                Some(bytes) => ended is None && final(self)@ == bytes@ && final(self)@
                    == left_after(old(self)@, ReaderEvent::Chunk(bytes@)),
                None => ended == Some(0usize) && final(self)@ == old(self)@,
            },
    {
        match chunk {
            Some(bytes) => {
                self.pos = 0;
                self.pending = bytes;
                None
            },
            None => Some(0),
        }
    }
}

/// One thing that happens to a [`ChunkReader`].
pub enum ReaderEvent {
    /// The channel delivers a chunk.
    Chunk(Seq<u8>),
    /// A read with room for so many bytes.
    Read(nat),
}

/// What is left to hand out after one event.
pub open spec fn left_after(left: Seq<u8>, event: ReaderEvent) -> Seq<u8> {
    match event {
        ReaderEvent::Chunk(bytes) => bytes,
        ReaderEvent::Read(room) => left.skip(handed_out(left, room).len() as int),
    }
}

/// What one event hands to the caller.
pub open spec fn bytes_read(left: Seq<u8>, event: ReaderEvent) -> Seq<u8> {
    match event {
        ReaderEvent::Chunk(_) => Seq::empty(),
        ReaderEvent::Read(room) => handed_out(left, room),
    }
}

/// A read hands out the beginning of what is left, as much of it as the buffer
/// has room for, and leaves the rest; a chunk is taken over as it is.
pub proof fn reads_take_all_there_is_room_for(
    left: Seq<u8>,
    room: nat,
    out: Seq<u8>,
    rest: Seq<u8>,
    chunk: Seq<u8>,
)
    requires
        left == out + rest,
        out.len() == room || (out.len() < room && rest.len() == 0),
    ensures
        handed_out(left, room) == out,
        bytes_read(left, ReaderEvent::Read(room)) == out,
        left_after(left, ReaderEvent::Read(room)) == rest,
        bytes_read(left, ReaderEvent::Chunk(chunk)).len() == 0,
        left_after(left, ReaderEvent::Chunk(chunk)) == chunk,
{
    assert(left.take(out.len() as int) =~= out);
    assert(left.skip(out.len() as int) =~= rest);
    if rest.len() == 0 {
        assert(left =~= out);
    }
}

/// A read moves bytes from the front of what is left to the front of the
/// buffer: together they are still what was left before. It stops only when the
/// buffer is full or nothing is left, and touches nothing behind. It asks for a
/// chunk exactly if nothing is left, and then changes nothing.
pub proof fn reads_move_bytes_into_the_buffer(
    reader: &mut ChunkReader,
    buf: &mut [u8],
    step: ReadStep,
)
    requires
        call_ensures(ChunkReader::read, (reader, buf), step),
    ensures
        step is NeedChunk <==> old(reader)@.len() == 0,
        step is NeedChunk ==> final(reader)@ == old(reader)@ && final(buf)@ == old(buf)@,
        step matches ReadStep::Read(n) ==> final(buf)@.take(n as int) + final(reader)@ == old(
            reader,
        )@,
        step matches ReadStep::Read(n) ==> final(buf)@.len() == old(buf)@.len() && final(buf)@.skip(
            n as int,
        ) == old(buf)@.skip(n as int),
        step matches ReadStep::Read(n) ==> n == old(buf)@.len() || final(reader)@.len() == 0,
{
    if let ReadStep::Read(n) = step {
        let taken = old(reader)@.take(n as int);
        assert(final(buf)@.take(n as int) =~= taken);
        assert(taken + old(reader)@.skip(n as int) =~= old(reader)@);
        assert(final(buf)@.skip(n as int) =~= old(buf)@.skip(n as int));
    }
}

/// A chunk becomes what is left, with every byte it has, however long it is or
/// if it is empty, and the read goes on; only a closed channel ends it, with no
/// bytes.
pub proof fn chunks_are_taken_over_whole(
    reader: &mut ChunkReader,
    chunk: Option<Vec<u8>>,
    ended: Option<usize>,
)
    requires
        old(reader)@.len() == 0,
        call_ensures(ChunkReader::receive, (reader, chunk), ended),
    ensures
        ended is Some <==> chunk is None,
        ended is Some ==> ended->0 == 0 && final(reader)@.len() == 0,
        chunk is Some ==> final(reader)@ == chunk->0@,
{
}

/// Two reads in a row give what one read with the room of both gives, and leave
/// the same.
pub proof fn two_reads_are_one_larger_read(left: Seq<u8>, room: nat, more: nat)
    ensures
        bytes_read(left, ReaderEvent::Read(room)) + bytes_read(
            left_after(left, ReaderEvent::Read(room)),
            ReaderEvent::Read(more),
        ) == bytes_read(left, ReaderEvent::Read(room + more)),
        left_after(left_after(left, ReaderEvent::Read(room)), ReaderEvent::Read(more))
            == left_after(left, ReaderEvent::Read(room + more)),
{
}

/// A chunk is taken only when nothing is left of the one before.
pub open spec fn in_turn(left: Seq<u8>, events: Seq<ReaderEvent>) -> bool
    decreases events.len(),
{
    events.len() == 0 || {
        &&& events[0] is Chunk ==> left.len() == 0
        &&& in_turn(left_after(left, events[0]), events.drop_first())
    }
}

/// Every byte that the events hand to the caller, in order.
pub open spec fn all_read(left: Seq<u8>, events: Seq<ReaderEvent>) -> Seq<u8>
    decreases events.len(),
{
    if events.len() == 0 {
        Seq::empty()
    } else {
        bytes_read(left, events[0]) + all_read(
            left_after(left, events[0]),
            events.drop_first(),
        )
    }
}

/// What is left to hand out after all events.
pub open spec fn left_over(left: Seq<u8>, events: Seq<ReaderEvent>) -> Seq<u8>
    decreases events.len(),
{
    if events.len() == 0 {
        left
    } else {
        left_over(left_after(left, events[0]), events.drop_first())
    }
}

/// Every byte of the chunks among the events, in order.
pub open spec fn all_delivered(events: Seq<ReaderEvent>) -> Seq<u8>
    decreases events.len(),
{
    if events.len() == 0 {
        Seq::empty()
    } else {
        (match events[0] {
            ReaderEvent::Chunk(bytes) => bytes,
            ReaderEvent::Read(_) => Seq::empty(),
        }) + all_delivered(events.drop_first())
    }
}

/// However reads and chunks alternate, the bytes read so far followed by the
/// bytes left are the bytes that were left at first followed by the bytes
/// delivered: nothing is lost, repeated or reordered. A read that only asked
/// for a chunk, or was given up there, changes none of them.
pub proof fn reads_keep_the_byte_stream(left: Seq<u8>, events: Seq<ReaderEvent>)
    requires
        in_turn(left, events),
    ensures
        all_read(left, events) + left_over(left, events) == left + all_delivered(events),
    decreases events.len(),
{
    if events.len() > 0 {
        let next = left_after(left, events[0]);
        let rest = events.drop_first();
        reads_keep_the_byte_stream(next, rest);
        assert(bytes_read(left, events[0]) + next =~= left + all_delivered(events).take(
            all_delivered(events).len() - all_delivered(rest).len(),
        ));
        assert(all_read(left, events) + left_over(left, events) =~= bytes_read(left, events[0]) + (
        all_read(next, rest) + left_over(next, rest)));
        assert(left + all_delivered(events) =~= (bytes_read(left, events[0]) + next)
            + all_delivered(rest));
    }
}

/// One whole read against a channel that holds `queue`: chunks are taken until
/// there is something to hand out. Gives the bytes handed out, what is left of
/// the current chunk, and the chunks still queued.
pub open spec fn read_through(left: Seq<u8>, queue: Seq<Seq<u8>>, room: nat) -> (
    Seq<u8>,
    Seq<u8>,
    Seq<Seq<u8>>,
)
    decreases queue.len(),
{
    if left.len() > 0 || queue.len() == 0 {
        (
            bytes_read(left, ReaderEvent::Read(room)),
            left_after(left, ReaderEvent::Read(room)),
            queue,
        )
    } else {
        read_through(
            left_after(left, ReaderEvent::Chunk(queue[0])),
            queue.drop_first(),
            room,
        )
    }
}

/// Empty chunks are passed over: a read takes its bytes from the first chunk
/// that has any, and leaves the chunks behind it queued.
pub proof fn empty_chunks_are_skipped(queue: Seq<Seq<u8>>, first: nat, room: nat)
    requires
        first < queue.len(),
        queue[first as int].len() > 0,
        forall|j: int| 0 <= j < first ==> (#[trigger] queue[j]).len() == 0,
    ensures
        read_through(Seq::empty(), queue, room) == (
            handed_out(queue[first as int], room),
            left_after(queue[first as int], ReaderEvent::Read(room)),
            queue.skip(first + 1int),
        ),
    decreases first,
{
    let rest = queue.drop_first();
    assert(queue.skip(1) =~= rest);
    if first == 0 {
        reveal_with_fuel(read_through, 2);
    } else {
        assert(queue[0].len() == 0);
        assert(queue[0] =~= Seq::empty());
        empty_chunks_are_skipped(rest, (first - 1) as nat, room);
        assert(rest.skip(first as int) =~= queue.skip(first + 1int));
    }
}

/// A read with room hands out at least one byte if any chunk in the channel
/// has one, so zero bytes mean the end of the stream and nothing else.
pub proof fn zero_bytes_only_at_the_end(left: Seq<u8>, queue: Seq<Seq<u8>>, room: nat)
    requires
        room > 0,
    ensures
        read_through(left, queue, room).0.len() == 0 <==> (left.len() == 0 && forall|j: int|
            0 <= j < queue.len() ==> (#[trigger] queue[j]).len() == 0),
    decreases queue.len(),
{
    if left.len() == 0 && queue.len() > 0 {
        let rest = queue.drop_first();
        zero_bytes_only_at_the_end(queue[0], rest, room);
        assert(forall|j: int| 0 <= j < rest.len() ==> rest[j] == #[trigger] queue[j + 1]);
        if queue[0].len() == 0 && forall|j: int|
            0 <= j < rest.len() ==> (#[trigger] rest[j]).len() == 0 {
            assert forall|j: int| 0 <= j < queue.len() implies (#[trigger] queue[j]).len() == 0 by {
                if j > 0 {
                    assert(rest[j - 1] == queue[j]);
                }
            }
        }
    }
}

} // verus!
