//! Single-producer, multi-consumer broadcast ring buffer for interleaved
//! stereo audio frames.
//!
//! One source writes the canonical stream, and every render side owns a
//! [`Reader`] with an independent read position. Samples are `f32` bit
//! patterns.
//!
//! [`Ring`] and [`Reader`] are the buffer as a value: its view is the whole
//! stream ever written, and a read gives back a piece of that stream. A buffer
//! that is shared between threads keeps its slots and its write position in
//! atomics and performs the same steps ([`WriteSteps`], [`sample_slot`],
//! [`Reader::check_read`], [`Reader::finish_read`]) with the positions it
//! loaded. The writer stores the samples of a chunk first and publishes the new
//! write position afterwards ([`law_write_is_a_writer_run`]), and a reader
//! validates its region before and after copying;
//! [`law_concurrent_read_is_untorn`] states that this is enough, however the
//! steps of the two interleave.
use vstd::prelude::*;

verus! {

/// The canonical stream is always interleaved stereo.
pub const CHANNELS: usize = 2;

/// Maximum frames published per chunk. Writes larger than this are split so
/// that readers can bound how far an in-flight (unpublished) write may extend
/// past the published write position.
pub const MAX_WRITE_FRAMES: usize = 4800;

/// The slots of a ring with `slots` sample slots after the first `count`
/// samples of `stream` were stored one after the other.
pub open spec fn memory(stream: Seq<u32>, count: nat, slots: nat) -> Seq<u32>
    decreases count,
{
    if count == 0 {
        Seq::new(slots, |i: int| 0u32)
    } else {
        memory(stream, (count - 1) as nat, slots).update(
            (count - 1) % (slots as int),
            stream[count - 1],
        )
    }
}

/// Frames between a read position and a write position (0 if the read
/// position is not behind).
pub open spec fn lag(write: int, pos: int) -> int {
    if write > pos {
        write - pos
    } else {
        0
    }
}

/// A writer at `write`, including one unpublished chunk, has not wrapped
/// around into the region that starts at `pos`.
pub open spec fn region_ok(write: int, pos: int, capacity: int) -> bool {
    lag(write, pos) <= capacity - MAX_WRITE_FRAMES
}

/// The error of a read of `frames` frames at `pos`, or `None` if it succeeds.
pub open spec fn read_error(write: int, pos: int, frames: int, capacity: int) -> Option<ReadError> {
    if lag(write, pos) < frames {
        Some(ReadError::NotEnough)
    } else if !region_ok(write, pos, capacity) {
        Some(ReadError::Overwritten)
    } else {
        None
    }
}

/// `len` samples of `stream` from frame `pos` on.
pub open spec fn samples_at(stream: Seq<u32>, pos: nat, len: nat) -> Seq<u32> {
    Seq::new(len, |i: int| stream[CHANNELS * pos + i])
}

proof fn lemma_distinct_slots(x: int, y: int, slots: int)
    requires
        0 <= x < y < x + slots,
    ensures
        x % slots != y % slots,
{
    vstd::arithmetic::div_mod::lemma_fundamental_div_mod(x, slots);
    vstd::arithmetic::div_mod::lemma_fundamental_div_mod(y, slots);
    if x % slots == y % slots {
        let qx = x / slots;
        let qy = y / slots;
        assert(y - x == slots * (qy - qx)) by (nonlinear_arith)
            requires
                x == slots * qx + x % slots,
                y == slots * qy + y % slots,
                x % slots == y % slots,
        ;
        assert(false) by (nonlinear_arith)
            requires
                0 < slots * (qy - qx) < slots,
        ;
    }
}

proof fn lemma_memory_len(stream: Seq<u32>, count: nat, slots: nat)
    requires
        slots > 0,
    ensures
        memory(stream, count, slots).len() == slots,
    decreases count,
{
    if count > 0 {
        lemma_memory_len(stream, (count - 1) as nat, slots);
    }
}

/// What was stored last in a slot is found there, for as long as fewer than
/// `slots` further samples were stored.
proof fn lemma_memory_holds(stream: Seq<u32>, count: nat, slots: nat, j: int)
    requires
        0 <= j < count <= j + slots,
    ensures
        memory(stream, count, slots)[j % (slots as int)] == stream[j],
    decreases count,
{
    lemma_memory_len(stream, (count - 1) as nat, slots);
    assert(0 <= j % (slots as int) < slots) by {
        vstd::arithmetic::div_mod::lemma_mod_bound(j, slots as int);
    }
    if j < count - 1 {
        lemma_memory_holds(stream, (count - 1) as nat, slots, j);
        lemma_distinct_slots(j, count - 1, slots as int);
    }
}

/// Samples that are not stored yet do not matter for the slots.
proof fn lemma_memory_prefix(a: Seq<u32>, b: Seq<u32>, count: nat, slots: nat)
    requires
        count <= a.len(),
        count <= b.len(),
        forall|i: int| 0 <= i < count ==> a[i] == b[i],
    ensures
        memory(a, count, slots) == memory(b, count, slots),
    decreases count,
{
    if count > 0 {
        lemma_memory_prefix(a, b, (count - 1) as nat, slots);
    }
}

/// Length in samples of the next chunk of a write of `len` samples of which
/// `offset` are already published.
pub open spec fn chunk_size(len: int, offset: int) -> int {
    if len - offset < MAX_WRITE_FRAMES * CHANNELS {
        len - offset
    } else {
        MAX_WRITE_FRAMES * CHANNELS
    }
}

/// Length in samples of the next chunk of a write of `len` samples of which
/// `offset` are already published.
pub fn chunk_len(len: usize, offset: usize) -> (chunk: usize)
    requires
        offset <= len,
    ensures
        chunk == chunk_size(len as int, offset as int),
{
    let rest: usize = len - offset;
    if rest < MAX_WRITE_FRAMES * CHANNELS {
        rest
    } else {
        MAX_WRITE_FRAMES * CHANNELS
    }
}

/// Slot of the `i`-th sample counted from the first sample of `frame`.
pub fn sample_slot(frame: u64, i: usize, slots: usize) -> (slot: usize)
    requires
        slots > 0,
        frame * CHANNELS + i <= u64::MAX,
    ensures
        slot == (frame * CHANNELS + i) % (slots as int),
        slot < slots,
{
    let index: u64 = frame * CHANNELS as u64 + i as u64;
    (index % slots as u64) as usize
}

/// What a writer does next.
#[derive(Debug, Clone, Copy, PartialEq, Eq, Structural)]
pub enum WriteStep {
    /// Store sample `index` of the write into `slot`.
    Store { index: usize, slot: usize },
    /// Publish this write position.
    Publish { write_pos: u64 },
    /// Everything is stored and published.
    Done,
}

/// Progress of one write, step by step. The samples are stored in chunks of at
/// most `MAX_WRITE_FRAMES` frames, and each chunk is published before the next
/// one starts.
#[derive(Debug, Clone, Copy, PartialEq, Eq, Structural)]
pub struct WriteSteps {
    /// Write position at the start.
    pub start: u64,
    /// Samples to write.
    pub len: usize,
    /// Samples stored so far.
    pub stored: usize,
    /// Samples published so far.
    pub published: usize,
}

impl WriteSteps {
    /// Whole frames are written, the stream position does not overflow, and
    /// what is stored beyond what is published belongs to one chunk.
    pub open spec fn wf(self) -> bool {
        &&& self.len % CHANNELS == 0
        &&& self.published % CHANNELS == 0
        &&& CHANNELS * self.start + self.len <= u64::MAX
        &&& self.published <= self.stored <= self.len
        &&& self.stored <= self.published + chunk_size(self.len as int, self.published as int)
    }

    /// The current chunk has samples that are not stored yet.
    pub open spec fn is_storing(self) -> bool {
        self.stored < self.published + chunk_size(self.len as int, self.published as int)
    }

    pub open spec fn is_done(self) -> bool {
        !self.is_storing() && self.published == self.stored
    }

    /// What comes next, with `slots` sample slots.
    pub open spec fn step(self, slots: usize) -> WriteStep {
        if self.is_storing() {
            WriteStep::Store {
                index: self.stored,
                slot: ((self.start * CHANNELS + self.stored) % (slots as int)) as usize,
            }
        } else if self.published < self.stored {
            WriteStep::Publish { write_pos: (self.start + self.stored / CHANNELS) as u64 }
        } else {
            WriteStep::Done
        }
    }

    /// The progress after that.
    pub open spec fn after_step(self) -> Self {
        if self.is_storing() {
            WriteSteps { stored: (self.stored + 1) as usize, ..self }
        } else {
            WriteSteps { published: self.stored, ..self }
        }
    }

    /// A write of `len` samples by a writer at `write_pos`.
    pub fn begin(write_pos: u64, len: usize) -> (steps: Self)
        requires
            len % CHANNELS == 0,
            CHANNELS * write_pos + len <= u64::MAX,
        ensures
            steps.wf(),
            steps == (WriteSteps { start: write_pos, len, stored: 0, published: 0 }),
    {
        Self { start: write_pos, len, stored: 0, published: 0 }
    }

    /// Decides the next step and goes on behind it.
    pub fn next_step(&mut self, slots: usize) -> (step: WriteStep)
        requires
            old(self).wf(),
            slots > 0,
        ensures
            step == old(self).step(slots),
            *final(self) == old(self).after_step(),
            final(self).wf(),
            step is Done <==> old(self).stored == old(self).len && old(self).published == old(
                self,
            ).len,
            step matches WriteStep::Store { index, slot } ==> index < old(self).len && slot < slots,
    {
        let chunk: usize = chunk_len(self.len, self.published);
        let index: usize = self.stored;
        if index - self.published < chunk {
            let slot: usize = sample_slot(self.start, index, slots);
            self.stored = index + 1;
            return WriteStep::Store { index, slot };
        }
        if self.published < index {
            self.published = index;
            return WriteStep::Publish { write_pos: self.start + (index / CHANNELS) as u64 };
        }
        WriteStep::Done
    }
}

pub struct Ring {
    samples: Vec<u32>,
    capacity_frames: u64,
    write_pos: u64,
    stream: Ghost<Seq<u32>>,
}

impl View for Ring {
    type V = Seq<u32>;

    /// Every sample ever written, in order.
    closed spec fn view(&self) -> Seq<u32> {
        self.stream@
    }
}

impl Ring {
    /// Capacity in frames.
    pub closed spec fn capacity(&self) -> nat {
        self.capacity_frames as nat
    }

    /// Frames ever written.
    pub open spec fn frames(&self) -> nat {
        self@.len() / 2
    }

    /// The slots hold what storing the stream sample by sample leaves there,
    /// and the write position counts its frames.
    pub closed spec fn wf(&self) -> bool {
        &&& self.capacity_frames >= 4 * MAX_WRITE_FRAMES
        &&& self.samples@.len() == CHANNELS * self.capacity_frames
        &&& self.stream@.len() == CHANNELS * self.write_pos
        &&& self.stream@.len() <= u64::MAX
        &&& self.samples@ == memory(self.stream@, self.stream@.len(), self.samples@.len())
    }

    /// An empty ring for `capacity_frames` frames. The capacity has to leave
    /// room for the write chunk safety margin.
    pub fn new(capacity_frames: usize) -> (ring: Self)
        requires
            capacity_frames >= 4 * MAX_WRITE_FRAMES,
            capacity_frames * CHANNELS <= usize::MAX,
        ensures
            ring.wf(),
            ring.capacity() == capacity_frames,
            ring@ == Seq::<u32>::empty(),
    {
        let samples: Vec<u32> = vec![0u32; capacity_frames * CHANNELS];
        let ring = Self {
            samples,
            capacity_frames: capacity_frames as u64,
            write_pos: 0,
            stream: Ghost(Seq::empty()),
        };
        assert(ring.samples@ =~= memory(ring.stream@, 0, ring.samples@.len()));
        ring
    }

    /// Total frames ever written (monotonic).
    pub fn write_pos(&self) -> (pos: u64)
        requires
            self.wf(),
        ensures
            pos == self.frames(),
            pos * CHANNELS == self@.len(),
    {
        self.write_pos
    }

    /// Capacity in frames.
    pub fn capacity_frames(&self) -> (frames: u64)
        ensures
            frames == self.capacity(),
    {
        self.capacity_frames
    }

    /// Appends interleaved stereo samples.
    pub fn write(&mut self, interleaved: &[u32])
        requires
            old(self).wf(),
            interleaved@.len() % (CHANNELS as nat) == 0,
            old(self)@.len() + interleaved@.len() <= u64::MAX,
        ensures
            final(self).wf(),
            final(self).capacity() == old(self).capacity(),
            final(self)@ == old(self)@ + interleaved@,
    {
        let slots: usize = self.samples.len();
        let ghost before = self.stream@;
        let ghost after = before + interleaved@;
        proof {
            lemma_memory_prefix(before, after, before.len(), slots as nat);
        }
        let mut steps = WriteSteps::begin(self.write_pos, interleaved.len());
        loop
            invariant
                steps.wf(),
                steps.start == old(self).write_pos,
                steps.len == interleaved@.len(),
                slots > 0,
                self.samples@.len() == slots,
                self.capacity_frames == old(self).capacity_frames,
                self.write_pos == steps.start + steps.published / CHANNELS,
                before == old(self)@,
                before.len() == steps.start * CHANNELS,
                after == before + interleaved@,
                self.samples@ == memory(after, before.len() + steps.stored as nat, slots as nat),
            ensures
                steps.stored == steps.len,
                steps.published == steps.len,
            decreases 2 * steps.len - steps.stored - steps.published,
        {
            match steps.next_step(slots) {
                WriteStep::Store { index, slot } => {
                    self.samples.set(slot, interleaved[index]);
                    assert(after[before.len() + index] == interleaved@[index as int]);
                },
                WriteStep::Publish { write_pos } => {
                    self.write_pos = write_pos;
                },
                WriteStep::Done => {
                    break;
                },
            }
        }
        self.stream = Ghost(after);
    }

    /// A reader that starts at the current write position.
    pub fn reader(&self) -> (reader: Reader)
        requires
            self.wf(),
        ensures
            reader.position() == self.frames(),
    {
        Reader { pos: self.write_pos() }
    }
}

#[derive(Debug, Clone, Copy, PartialEq, Eq, Structural)]
pub enum ReadError {
    /// Fewer frames available than requested; nothing was consumed.
    NotEnough,
    /// The reader fell behind and the writer may have overwritten the
    /// requested region; the reader must reseek via `seek_to_latest`.
    Overwritten,
}

/// An independent read position in the stream of a ring.
pub struct Reader {
    pos: u64,
}

impl Reader {
    /// The next frame to read.
    pub closed spec fn position(&self) -> nat {
        self.pos as nat
    }

    /// A reader whose next frame is `pos`.
    pub fn at(pos: u64) -> (reader: Self)
        ensures
            reader.position() == pos,
    {
        Self { pos }
    }

    /// The next frame to read.
    pub fn pos(&self) -> (pos: u64)
        ensures
            pos == self.position(),
    {
        self.pos
    }

    /// Frames buffered between this reader and a writer at `write`.
    pub fn available_at(&self, write: u64) -> (frames: u64)
        ensures
            frames == lag(write as int, self.position() as int),
    {
        write.saturating_sub(self.pos)
    }

    /// Frames buffered between this reader and the writer (the fill level).
    pub fn available(&self, ring: &Ring) -> (frames: u64)
        requires
            ring.wf(),
        ensures
            frames == lag(ring.frames() as int, self.position() as int),
    {
        self.available_at(ring.write_pos())
    }

    /// Moves the read position so that `keep_frames` frames remain buffered
    /// behind a writer at `write`.
    pub fn seek_behind(&mut self, write: u64, keep_frames: u64)
        ensures
            final(self).position() == lag(write as int, keep_frames as int),
    {
        self.pos = write.saturating_sub(keep_frames);
    }

    /// Moves the read position so that `keep_frames` frames remain buffered.
    pub fn seek_to_latest(&mut self, ring: &Ring, keep_frames: u64)
        requires
            ring.wf(),
        ensures
            final(self).position() == lag(ring.frames() as int, keep_frames as int),
    {
        self.seek_behind(ring.write_pos(), keep_frames);
    }

    /// The region starting at the read position is safe if the writer,
    /// including one possibly in-flight unpublished chunk, has not wrapped
    /// around into it.
    pub fn region_valid(&self, write: u64, capacity_frames: u64) -> (valid: bool)
        requires
            capacity_frames >= MAX_WRITE_FRAMES,
        ensures
            valid == region_ok(write as int, self.position() as int, capacity_frames as int),
    {
        write.saturating_sub(self.pos) <= capacity_frames - MAX_WRITE_FRAMES as u64
    }

    /// Decides, before any sample is copied, whether `frames` frames can be
    /// read while the published write position is `write`.
    pub fn check_read(&self, write: u64, frames: u64, capacity_frames: u64) -> (result: Result<
        (),
        ReadError,
    >)
        requires
            capacity_frames >= MAX_WRITE_FRAMES,
        ensures
            result == match read_error(
                write as int,
                self.position() as int,
                frames as int,
                capacity_frames as int,
            ) {
                None => Ok(()),
                Some(error) => Err(error),
            },
    {
        if self.available_at(write) < frames {
            return Err(ReadError::NotEnough);
        }
        if !self.region_valid(write, capacity_frames) {
            return Err(ReadError::Overwritten);
        }
        Ok(())
    }

    /// Decides, after `frames` frames were copied, whether the copy is good
    /// while the published write position is now `write`. A good copy is
    /// consumed; if the writer advanced into the region meanwhile, the copied
    /// data may be torn and must be discarded.
    pub fn finish_read(&mut self, write: u64, frames: u64, capacity_frames: u64) -> (result: Result<
        (),
        ReadError,
    >)
        requires
            capacity_frames >= MAX_WRITE_FRAMES,
            frames <= lag(write as int, old(self).position() as int),
        ensures
            result == if region_ok(
                write as int,
                old(self).position() as int,
                capacity_frames as int,
            ) {
                Ok::<(), ReadError>(())
            } else {
                Err(ReadError::Overwritten)
            },
            final(self).position() == old(self).position() + if result is Ok {
                frames as int
            } else {
                0
            },
    {
        if !self.region_valid(write, capacity_frames) {
            return Err(ReadError::Overwritten);
        }
        self.pos = self.pos + frames;
        Ok(())
    }

    /// Reads exactly `dst.len() / CHANNELS` frames or fails without consuming.
    pub fn read_exact(&mut self, ring: &Ring, dst: &mut [u32]) -> (result: Result<(), ReadError>)
        requires
            ring.wf(),
            old(dst)@.len() % (CHANNELS as nat) == 0,
        ensures
            result == match read_error(
                ring.frames() as int,
                old(self).position() as int,
                (old(dst)@.len() / 2) as int,
                ring.capacity() as int,
            ) {
                None => Ok(()),
                Some(error) => Err(error),
            },
            result is Ok ==> {
                &&& final(self).position() == old(self).position() + old(dst)@.len() / 2
                &&& final(dst)@ == samples_at(ring@, old(self).position(), old(dst)@.len())
            },
            result is Err ==> {
                &&& final(self).position() == old(self).position()
                &&& final(dst)@ == old(dst)@
            },
    {
        let frames: u64 = (dst.len() / CHANNELS) as u64;
        self.check_read(ring.write_pos(), frames, ring.capacity_frames())?;
        let slots: usize = ring.samples.len();
        let len: usize = dst.len();
        let ghost base: int = CHANNELS * self.pos;
        let mut i: usize = 0;
        while i < len
            invariant
                i <= len,
                len == dst@.len(),
                len == old(dst)@.len(),
                ring.wf(),
                slots == ring.samples@.len(),
                base == CHANNELS * self.pos,
                self.pos == old(self).pos,
                len > 0 ==> base + len <= ring@.len() <= base + slots,
                forall|k: int| 0 <= k < i ==> dst@[k] == ring@[base + k],
            decreases len - i,
        {
            let index: usize = sample_slot(self.pos, i, slots);
            proof {
                lemma_memory_holds(ring@, ring@.len(), slots as nat, base + i);
            }
            dst[i] = ring.samples[index];
            i += 1;
        }
        self.finish_read(ring.write_pos(), frames, ring.capacity_frames())
    }
}

/// A reader that is at the end of the stream reads back exactly what is
/// written next, in order and across the wrap point, as long as the write
/// leaves the safety margin; a larger write laps it.
pub proof fn law_write_then_read(stream: Seq<u32>, data: Seq<u32>, capacity: nat)
    requires
        stream.len() % 2 == 0,
        data.len() % 2 == 0,
        capacity >= 4 * MAX_WRITE_FRAMES,
    ensures
        data.len() / 2 <= capacity - MAX_WRITE_FRAMES ==> read_error(
            ((stream + data).len() / 2) as int,
            (stream.len() / 2) as int,
            (data.len() / 2) as int,
            capacity as int,
        ) is None,
        data.len() / 2 > capacity - MAX_WRITE_FRAMES ==> read_error(
            ((stream + data).len() / 2) as int,
            (stream.len() / 2) as int,
            (data.len() / 2) as int,
            capacity as int,
        ) == Some(ReadError::Overwritten),
        samples_at(stream + data, stream.len() / 2, data.len()) == data,
{
    assert(samples_at(stream + data, stream.len() / 2, data.len()) =~= data);
}

/// Two writes leave the same stream as one write of both pieces.
pub proof fn law_writes_concatenate(stream: Seq<u32>, first: Seq<u32>, second: Seq<u32>)
    ensures
        (stream + first) + second == stream + (first + second),
{
    assert((stream + first) + second =~= stream + (first + second));
}

/// Two reads in a row give what one read of both lengths gives, and the parts
/// of a read that succeeds succeed.
pub proof fn law_reads_concatenate(
    stream: Seq<u32>,
    capacity: nat,
    pos: nat,
    first: nat,
    second: nat,
)
    requires
        first % 2 == 0,
        second % 2 == 0,
    ensures
        samples_at(stream, pos, first) + samples_at(stream, pos + first / 2, second) == samples_at(
            stream,
            pos,
            first + second,
        ),
        read_error(
            (stream.len() / 2) as int,
            pos as int,
            ((first + second) / 2) as int,
            capacity as int,
        ) is None ==> {
            &&& read_error(
                (stream.len() / 2) as int,
                pos as int,
                (first / 2) as int,
                capacity as int,
            ) is None
            &&& read_error(
                (stream.len() / 2) as int,
                (pos + first / 2) as int,
                (second / 2) as int,
                capacity as int,
            ) is None
        },
{
    assert(samples_at(stream, pos, first) + samples_at(stream, pos + first / 2, second)
        =~= samples_at(stream, pos, first + second));
}

/// The stream is the same for every reader: wherever the regions that two
/// readers read overlap, they get the same samples.
pub proof fn law_readers_agree(
    stream: Seq<u32>,
    pos: nat,
    len: nat,
    other_pos: nat,
    other_len: nat,
    sample: int,
)
    requires
        CHANNELS * pos <= sample < CHANNELS * pos + len,
        CHANNELS * other_pos <= sample < CHANNELS * other_pos + other_len,
    ensures
        samples_at(stream, pos, len)[sample - CHANNELS * pos] == samples_at(
            stream,
            other_pos,
            other_len,
        )[sample - CHANNELS * other_pos],
{
}

/// Later writes never change what a position of the stream reads as.
pub proof fn law_written_samples_stay(stream: Seq<u32>, more: Seq<u32>, pos: nat, len: nat)
    requires
        CHANNELS * pos + len <= stream.len(),
    ensures
        samples_at(stream + more, pos, len) == samples_at(stream, pos, len),
{
    assert(samples_at(stream + more, pos, len) =~= samples_at(stream, pos, len));
}

/// A lapped reader stays lapped, however far the writer goes on, until it
/// reseeks.
pub proof fn law_lapped_until_reseek(write: int, later: int, pos: int, capacity: int)
    requires
        write <= later,
        capacity >= 4 * MAX_WRITE_FRAMES,
        !region_ok(write, pos, capacity),
    ensures
        !region_ok(later, pos, capacity),
{
}

/// After a reseek that keeps `keep` frames, exactly those frames (or all that
/// were ever written) are available, and they can be read.
pub proof fn law_reseek_recovers(write: nat, keep: nat, frames: nat, capacity: nat)
    requires
        keep <= capacity - MAX_WRITE_FRAMES,
        frames <= keep,
        frames <= write,
    ensures
        lag(write as int, lag(write as int, keep as int)) == if keep < write {
            keep
        } else {
            write
        },
        read_error(
            write as int,
            lag(write as int, keep as int),
            frames as int,
            capacity as int,
        ) is None,
{
}

/// A reader never gets ahead of the writer: neither a reseek nor a read that
/// succeeds moves it past the write position.
pub proof fn law_reader_stays_behind(write: nat, pos: nat, keep: nat, frames: nat, capacity: nat)
    requires
        pos <= write,
    ensures
        lag(write as int, keep as int) <= write,
        read_error(write as int, pos as int, frames as int, capacity as int) is None ==> pos
            + frames <= write,
{
}

/// A copy that was validated before and after is the stream, whatever the
/// writer did in between.
///
/// The writer stores the samples of `stream` one after the other into
/// `CHANNELS * capacity` slots. When sample `i` of the copy was loaded,
/// `stored[i]` samples had been stored: at least those below the write
/// position `before` that the reader loaded first, and, since a chunk is
/// published before the next one starts, at most one chunk more than those
/// below the write position `after` that it loaded last.
pub proof fn law_validated_copy_is_untorn(
    stream: Seq<u32>,
    capacity: nat,
    pos: nat,
    frames: nat,
    before: nat,
    after: nat,
    stored: Seq<nat>,
    copy: Seq<u32>,
)
    requires
        capacity >= 4 * MAX_WRITE_FRAMES,
        stored.len() == CHANNELS * frames,
        copy.len() == CHANNELS * frames,
        forall|i: int|
            0 <= i < CHANNELS * frames ==> CHANNELS * before <= #[trigger] stored[i] <= CHANNELS * (
            after + MAX_WRITE_FRAMES),
        forall|i: int|
            0 <= i < CHANNELS * frames ==> #[trigger] copy[i] == memory(
                stream,
                stored[i],
                CHANNELS as nat * capacity,
            )[(CHANNELS * pos + i) % (CHANNELS * capacity)],
        read_error(before as int, pos as int, frames as int, capacity as int) is None,
        region_ok(after as int, pos as int, capacity as int),
    ensures
        copy == samples_at(stream, pos, CHANNELS as nat * frames),
{
    assert forall|i: int| 0 <= i < CHANNELS * frames implies copy[i] == stream[CHANNELS * pos
        + i] by {
        let count = stored[i];
        assert(CHANNELS * before <= stored[i]);
        lemma_memory_holds(stream, count, CHANNELS as nat * capacity, CHANNELS * pos + i);
    }
    assert(copy =~= samples_at(stream, pos, CHANNELS as nat * frames));
}

/// A writer between two of its steps: the samples it has stored and the frames
/// it has published, both counted from the start of the stream.
pub struct WriterState {
    pub stored: nat,
    pub published: nat,
}

/// One step of a writer: it stores the next sample of a chunk, which holds no
/// more than `MAX_WRITE_FRAMES` frames, or publishes the whole frames stored.
pub open spec fn is_writer_step(before: WriterState, after: WriterState) -> bool {
    ||| {
        &&& before.stored < CHANNELS * (before.published + MAX_WRITE_FRAMES)
        &&& after == (WriterState { stored: before.stored + 1, ..before })
    }
    ||| {
        &&& before.stored % 2 == 0
        &&& after == (WriterState { published: before.stored / 2, ..before })
    }
}

/// The states of a writer that starts with everything published, step by step.
pub open spec fn is_writer_run(run: Seq<WriterState>) -> bool {
    &&& run.len() > 0
    &&& run[0].stored == CHANNELS * run[0].published
    &&& forall|k: int| 0 <= k < run.len() - 1 ==> #[trigger] is_writer_step(run[k], run[k + 1])
}

/// A writer has always stored what it has published, and never more than one
/// chunk beyond.
pub proof fn law_writer_is_at_most_a_chunk_ahead(run: Seq<WriterState>, k: int)
    requires
        is_writer_run(run),
        0 <= k < run.len(),
    ensures
        CHANNELS * run[k].published <= run[k].stored <= CHANNELS * (run[k].published
            + MAX_WRITE_FRAMES),
    decreases k,
{
    if k > 0 {
        law_writer_is_at_most_a_chunk_ahead(run, k - 1);
        assert(is_writer_step(run[k - 1], run[k - 1 + 1]));
    }
}

/// A writer takes back neither a sample nor a published position.
pub proof fn law_writer_only_advances(run: Seq<WriterState>, j: int, k: int)
    requires
        is_writer_run(run),
        0 <= j <= k < run.len(),
    ensures
        run[j].stored <= run[k].stored,
        run[j].published <= run[k].published,
    decreases k,
{
    if j < k {
        law_writer_only_advances(run, j, k - 1);
        law_writer_is_at_most_a_chunk_ahead(run, k - 1);
        assert(is_writer_step(run[k - 1], run[k - 1 + 1]));
    }
}

/// A read that runs next to a writer gives the stream or is refused, however
/// the steps of the two interleave.
///
/// The reader loads the write position when the writer is in state `first` of
/// its run, then sample `i` of the copy when it is in state `times[i]`, and
/// then the write position again in state `last`. If both checks pass, the copy
/// is what the stream holds there.
pub proof fn law_concurrent_read_is_untorn(
    stream: Seq<u32>,
    capacity: nat,
    pos: nat,
    frames: nat,
    run: Seq<WriterState>,
    first: int,
    last: int,
    times: Seq<int>,
    copy: Seq<u32>,
)
    requires
        capacity >= 4 * MAX_WRITE_FRAMES,
        is_writer_run(run),
        0 <= first <= last < run.len(),
        times.len() == CHANNELS * frames,
        copy.len() == CHANNELS * frames,
        forall|i: int| 0 <= i < CHANNELS * frames ==> first <= #[trigger] times[i] <= last,
        forall|i: int|
            0 <= i < CHANNELS * frames ==> #[trigger] copy[i] == memory(
                stream,
                run[times[i]].stored,
                CHANNELS as nat * capacity,
            )[(CHANNELS * pos + i) % (CHANNELS * capacity)],
        read_error(
            run[first].published as int,
            pos as int,
            frames as int,
            capacity as int,
        ) is None,
        region_ok(run[last].published as int, pos as int, capacity as int),
    ensures
        copy == samples_at(stream, pos, CHANNELS as nat * frames),
{
    let stored = Seq::new(CHANNELS as nat * frames, |i: int| run[times[i]].stored);
    assert forall|i: int| 0 <= i < CHANNELS * frames implies CHANNELS * run[first].published
        <= #[trigger] stored[i] <= CHANNELS * (run[last].published + MAX_WRITE_FRAMES) by {
        let t = times[i];
        law_writer_is_at_most_a_chunk_ahead(run, first);
        law_writer_only_advances(run, first, t);
        law_writer_is_at_most_a_chunk_ahead(run, t);
        law_writer_only_advances(run, t, last);
    }
    law_validated_copy_is_untorn(
        stream,
        capacity,
        pos,
        frames,
        run[first].published,
        run[last].published,
        stored,
        copy,
    );
}

/// One step of a writer publishes at most `MAX_WRITE_FRAMES` further frames, all
/// of which were stored before.
pub proof fn law_publications_are_bounded(run: Seq<WriterState>, k: int)
    requires
        is_writer_run(run),
        0 <= k < run.len() - 1,
    ensures
        run[k].published <= run[k + 1].published <= run[k].published + MAX_WRITE_FRAMES,
        CHANNELS * run[k + 1].published <= run[k].stored || run[k + 1].published
            == run[k].published,
{
    law_writer_is_at_most_a_chunk_ahead(run, k);
    assert(is_writer_step(run[k], run[k + 1]));
}

/// What one write leaves, the next one goes on from: the runs of two writes
/// make up one run.
pub proof fn law_writer_runs_join(first: Seq<WriterState>, second: Seq<WriterState>)
    requires
        is_writer_run(first),
        is_writer_run(second),
        first.last() == second[0],
    ensures
        is_writer_run(first + second.skip(1)),
{
    let run = first + second.skip(1);
    assert forall|k: int| 0 <= k < run.len() - 1 implies #[trigger] is_writer_step(
        run[k],
        run[k + 1],
    ) by {
        if k < first.len() - 1 {
            assert(is_writer_step(first[k], first[k + 1]));
        } else {
            let j = k - (first.len() - 1);
            assert(run[k] == second[j]);
            assert(run[k + 1] == second[j + 1]);
            assert(is_writer_step(second[j], second[j + 1]));
        }
    }
}

/// Where a write stands in the stream.
pub open spec fn writer_state(steps: WriteSteps) -> WriterState {
    WriterState {
        stored: (CHANNELS * steps.start + steps.stored) as nat,
        published: (steps.start + steps.published / CHANNELS) as nat,
    }
}

/// The states that a write goes through from `steps` on, step by step.
pub open spec fn write_run(steps: WriteSteps) -> Seq<WriterState>
    decreases 2 * steps.len - steps.stored - steps.published,
    when steps.wf()
{
    if steps.is_done() {
        seq![writer_state(steps)]
    } else {
        seq![writer_state(steps)] + write_run(steps.after_step())
    }
}

proof fn lemma_write_run(steps: WriteSteps)
    requires
        steps.wf(),
    ensures
        write_run(steps).len() > 0,
        write_run(steps)[0] == writer_state(steps),
        write_run(steps).last() == (WriterState {
            stored: (CHANNELS * steps.start + steps.len) as nat,
            published: (steps.start + steps.len / CHANNELS) as nat,
        }),
        forall|k: int|
            0 <= k < write_run(steps).len() - 1 ==> #[trigger] is_writer_step(
                write_run(steps)[k],
                write_run(steps)[k + 1],
            ),
    decreases 2 * steps.len - steps.stored - steps.published,
{
    if !steps.is_done() {
        let next = steps.after_step();
        let run = write_run(steps);
        let rest = write_run(next);
        lemma_write_run(next);
        assert(is_writer_step(writer_state(steps), writer_state(next)));
        assert forall|k: int| 0 <= k < run.len() - 1 implies #[trigger] is_writer_step(
            run[k],
            run[k + 1],
        ) by {
            if k > 0 {
                assert(run[k] == rest[k - 1]);
                assert(run[k + 1] == rest[k - 1 + 1]);
                assert(is_writer_step(rest[k - 1], rest[k - 1 + 1]));
            }
        }
        assert(run.last() == rest.last());
    }
}

/// A write of any length is a writer run that ends with everything stored and
/// published. On the way the write position grows by at most `MAX_WRITE_FRAMES`
/// frames at a time, and whenever a position is published, every sample below
/// it is stored already.
pub proof fn law_write_is_a_writer_run(write_pos: u64, len: usize)
    requires
        len % CHANNELS == 0,
        CHANNELS * write_pos + len <= u64::MAX,
    ensures
        ({
            let run = write_run(WriteSteps { start: write_pos, len, stored: 0, published: 0 });
            &&& is_writer_run(run)
            &&& run[0] == (WriterState {
                stored: (CHANNELS * write_pos) as nat,
                published: write_pos as nat,
            })
            &&& run.last() == (WriterState {
                stored: (CHANNELS * write_pos + len) as nat,
                published: (write_pos + len / CHANNELS) as nat,
            })
            &&& forall|k: int|
                0 <= k < run.len() ==> CHANNELS * (#[trigger] run[k]).published <= run[k].stored
            &&& forall|k: int|
                0 <= k < run.len() - 1 ==> (#[trigger] run[k]).published <= run[k + 1].published
                    <= run[k].published + MAX_WRITE_FRAMES
        }),
{
    let steps = WriteSteps { start: write_pos, len, stored: 0, published: 0 };
    let run = write_run(steps);
    lemma_write_run(steps);
    assert(is_writer_run(run));
    assert forall|k: int| 0 <= k < run.len() implies CHANNELS * (#[trigger] run[k]).published
        <= run[k].stored by {
        law_writer_is_at_most_a_chunk_ahead(run, k);
    }
    assert forall|k: int| 0 <= k < run.len() - 1 implies (#[trigger] run[k]).published <= run[k
        + 1].published <= run[k].published + MAX_WRITE_FRAMES by {
        law_publications_are_bounded(run, k);
    }
}

/// The fill level is what is missing from the read position to the write
/// position.
pub proof fn law_fill_level_counts_frames(write: nat, pos: nat)
    ensures
        pos <= write ==> pos + lag(write as int, pos as int) == write,
        pos >= write ==> lag(write as int, pos as int) == 0,
{
}

/// A read fails for want of frames exactly if it would pass the write position.
/// Else it is refused exactly if the writer is so far ahead that one more chunk
/// could reach the region again.
pub proof fn law_reads_are_refused_for_a_reason(write: nat, pos: nat, frames: nat, capacity: nat)
    requires
        capacity >= 4 * MAX_WRITE_FRAMES,
    ensures
        ({
            let error = read_error(write as int, pos as int, frames as int, capacity as int);
            let short = frames > 0 && pos + frames > write;
            let lapped = write + MAX_WRITE_FRAMES > pos + capacity;
            &&& error == Some(ReadError::NotEnough) <==> short
            &&& error == Some(ReadError::Overwritten) <==> !short && lapped
            &&& region_ok(write as int, pos as int, capacity as int) <==> !lapped
        }),
{
}

/// Sample `i` of a read at frame `pos` is sample `2 * pos + i` of the stream.
pub proof fn law_reads_give_the_stream(stream: Seq<u32>, pos: nat, len: nat, i: int)
    requires
        0 <= i < len,
    ensures
        samples_at(stream, pos, len).len() == len,
        samples_at(stream, pos, len)[i] == stream[2 * pos + i],
{
}

/// A write stores its samples in order, each behind the one before, publishes a
/// chunk when it is full or the last one, and is done when everything is stored
/// and published.
pub proof fn law_write_steps_in_order(steps: WriteSteps, slots: usize)
    requires
        steps.wf(),
        slots > 0,
    ensures
        ({
            let after = steps.after_step();
            &&& after.start == steps.start
            &&& after.len == steps.len
            &&& match steps.step(slots) {
                WriteStep::Store { index, slot } => {
                    &&& steps.stored < steps.len
                    &&& steps.stored < steps.published + 9600
                    &&& index == steps.stored
                    &&& slot == (2 * steps.start + index) % (slots as int)
                    &&& after.stored == steps.stored + 1
                    &&& after.published == steps.published
                },
                WriteStep::Publish { write_pos } => {
                    &&& steps.published < steps.stored
                    &&& steps.stored == steps.len || steps.stored == steps.published + 9600
                    &&& 2 * (write_pos - steps.start) == steps.stored
                    &&& after.published == steps.stored
                    &&& after.stored == steps.stored
                },
                WriteStep::Done => {
                    &&& steps.stored == steps.len
                    &&& steps.published == steps.len
                    &&& after == steps
                },
            }
        }),
{
    assert(0 <= (steps.start * CHANNELS + steps.stored) % (slots as int) < slots) by {
        vstd::arithmetic::div_mod::lemma_mod_bound(
            steps.start * CHANNELS + steps.stored,
            slots as int,
        );
    }
}

} // verus!
