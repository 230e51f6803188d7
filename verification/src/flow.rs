use vstd::prelude::*;

verus! {

/// What the driver should do next on one body-forwarding direction.
#[derive(Clone, Copy, Debug, PartialEq, Eq, Structural)]
pub enum RelayStep {
    /// Room in the buffer and the source not exhausted: read one chunk.
    Read,
    /// Bytes are buffered: write to the sink.
    Write,
    /// Source exhausted and buffer drained: this direction is finished.
    Finished,
}

/// One direction of body forwarding with backpressure. The relay never asks
/// the driver to read while the buffer could not take a full chunk, so
/// however large the body, at most `capacity` bytes sit in memory — the
/// slow side paces the fast side.
pub struct Relay {
    /// Bytes read from the source and not yet written to the sink.
    pub buffered: usize,
    /// Upper bound the buffer never exceeds: a small multiple of the chunk.
    pub capacity: usize,
    /// Largest read the driver performs at once.
    pub chunk: usize,
    /// Total bytes taken from the source.
    pub total_in: u64,
    /// Total bytes delivered to the sink.
    pub total_out: u64,
    /// Whether the source reported end of body.
    pub source_done: bool,
}

impl Relay {
    /// Relay invariant: the buffer holds exactly the bytes in flight and
    /// never exceeds its capacity, whatever the body size.
    pub open spec fn wf(self) -> bool {
        &&& self.buffered <= self.capacity
        &&& self.chunk >= 1
        &&& self.capacity >= self.chunk
        &&& self.total_in as int == self.total_out as int + self.buffered as int
    }

    /// A relay buffering at most `multiple` chunks of `chunk` bytes.
    pub fn new(chunk: usize, multiple: usize) -> (r: Relay)
        requires
            chunk >= 1,
            multiple >= 1,
            chunk * multiple <= usize::MAX,
        ensures
            r.wf(),
            r.chunk == chunk,
            r.capacity == chunk * multiple,
            r.buffered == 0 && r.total_in == 0 && r.total_out == 0,
            !r.source_done,
    {
        proof {
            assert(chunk * multiple >= chunk * 1 == chunk) by (nonlinear_arith)
                requires
                    chunk >= 1,
                    multiple >= 1,
            ;
        }
        Relay {
            buffered: 0,
            capacity: chunk * multiple,
            chunk,
            total_in: 0,
            total_out: 0,
            source_done: false,
        }
    }

    /// The step the driver takes next. Reading is offered only while a full
    /// chunk fits in the buffer: a slow sink therefore stalls the source
    /// instead of growing memory.
    pub fn next_step(&self) -> (s: RelayStep)
        requires
            self.wf(),
        ensures
            s == RelayStep::Read ==> !self.source_done && self.buffered + self.chunk
                <= self.capacity,
            s == RelayStep::Write ==> self.buffered > 0,
            s == RelayStep::Finished <==> self.source_done && self.buffered == 0,
    {
        if self.source_done && self.buffered == 0 {
            RelayStep::Finished
        } else if !self.source_done && self.buffered <= self.capacity - self.chunk {
            RelayStep::Read
        } else {
            RelayStep::Write
        }
    }

    /// The driver read `n` bytes (`n == 0` meaning end of body).
    pub fn on_read(&mut self, n: usize)
        requires
            old(self).wf(),
            !old(self).source_done,
            n <= old(self).chunk,
            old(self).buffered + old(self).chunk <= old(self).capacity,
            old(self).total_in as int + n <= u64::MAX,
        ensures
            final(self).wf(),
            final(self).buffered == old(self).buffered + n,
            final(self).buffered <= final(self).capacity,
            final(self).total_in == old(self).total_in + n,
            final(self).total_out == old(self).total_out,
            final(self).source_done == (n == 0),
            final(self).capacity == old(self).capacity && final(self).chunk == old(self).chunk,
    {
        self.buffered = self.buffered + n;
        self.total_in = self.total_in + (n as u64);
        if n == 0 {
            self.source_done = true;
        }
    }

    /// The driver wrote `n` buffered bytes to the sink.
    pub fn on_write(&mut self, n: usize)
        requires
            old(self).wf(),
            1 <= n <= old(self).buffered,
        ensures
            final(self).wf(),
            final(self).buffered == old(self).buffered - n,
            final(self).total_out == old(self).total_out + n,
            final(self).total_in == old(self).total_in,
            final(self).source_done == old(self).source_done,
            final(self).capacity == old(self).capacity && final(self).chunk == old(self).chunk,
    {
        self.buffered = self.buffered - n;
        self.total_out = self.total_out + (n as u64);
    }
}

/// Backpressure bound: at every point of a transfer, the bytes held in
/// memory stay within the fixed buffer capacity — a function of the chunk
/// size alone, not of how many bytes the body carries.
pub proof fn lemma_bounded_buffering(r: Relay)
    requires
        r.wf(),
    ensures
        r.buffered <= r.capacity,
        r.total_in as int - r.total_out as int <= r.capacity as int,
{
}

} // verus!
