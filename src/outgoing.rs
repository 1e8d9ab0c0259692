//! The outgoing body sink: writing one chunk against the capacity that the
//! host reports, then flushing it.
use vstd::prelude::*;

verus! {

/// What the host answered when asked how many bytes it will accept now.
#[derive(Debug, Clone, Copy, PartialEq, Eq, Structural)]
pub enum Capacity {
    /// It accepts up to this many bytes; zero means not ready.
    Bytes(u64),
    /// The output channel failed.
    Failed,
}

/// What the driver does next for the chunk being sent.
#[derive(Debug, Clone, Copy, PartialEq, Eq, Structural)]
pub enum WriteStep {
    /// Register the channel's readiness source and suspend.
    Suspend,
    /// Write the bytes of the chunk in `start..end`, then ask for capacity again.
    Write { start: usize, end: usize },
    /// Request a flush, then ask for capacity again.
    Flush,
    /// The chunk is written and flushed.
    Complete,
    /// The channel failed: abort the sink with an I/O error.
    Fail,
}

/// Progress through one chunk of `len` bytes: `offset` bytes of it are
/// written, and `flushing` is set once the flush has been requested.
#[derive(Debug, Clone, Copy, PartialEq, Eq, Structural)]
pub struct ChunkWriter {
    pub len: usize,
    pub offset: usize,
    pub flushing: bool,
}

impl ChunkWriter {
    /// Whether the progress describes a real position in the chunk.
    pub open spec fn wf(self) -> bool {
        &&& self.offset <= self.len
        &&& self.flushing ==> self.offset == self.len
    }
}

/// One transition: the writer after the host reported `cap`, and the step to
/// take. Nothing is written while capacity is zero; otherwise as many bytes
/// as both the capacity and the rest of the chunk allow; a fully written
/// chunk is flushed, and complete once capacity is reported again after the
/// flush.
pub open spec fn writer_step(w: ChunkWriter, cap: Capacity) -> (ChunkWriter, WriteStep) {
    match cap {
        Capacity::Failed => (w, WriteStep::Fail),
        Capacity::Bytes(k) => if k == 0 {
            (w, WriteStep::Suspend)
        } else if w.offset == w.len {
            if w.flushing {
                (w, WriteStep::Complete)
            } else {
                (ChunkWriter { flushing: true, ..w }, WriteStep::Flush)
            }
        } else {
            let n = if (k as int) < w.len - w.offset {
                k as int
            } else {
                w.len - w.offset
            };
            (
                ChunkWriter { offset: (w.offset + n) as usize, ..w },
                WriteStep::Write { start: w.offset, end: (w.offset + n) as usize },
            )
        },
    }
}

/// The writer and the steps after the host's successive capacity reports.
pub open spec fn writer_run(w: ChunkWriter, caps: Seq<u64>) -> (ChunkWriter, Seq<WriteStep>)
    decreases caps.len(),
{
    if caps.len() == 0 {
        (w, Seq::empty())
    } else {
        let (w1, step) = writer_step(w, Capacity::Bytes(caps[0]));
        let (w2, rest) = writer_run(w1, caps.drop_first());
        (w2, seq![step] + rest)
    }
}

/// How many bytes one step sends.
pub open spec fn step_bytes(step: WriteStep) -> int {
    match step {
        WriteStep::Write { start, end } => end - start,
        _ => 0,
    }
}

/// How many bytes the `Write` steps among `steps` send.
pub open spec fn bytes_sent(steps: Seq<WriteStep>) -> int
    decreases steps.len(),
{
    if steps.len() == 0 {
        0
    } else {
        step_bytes(steps[0]) + bytes_sent(steps.drop_first())
    }
}

/// Every write in `steps` starts where the bytes before it end (counting
/// from `base`) and sends at least one byte, and every completion comes
/// after `len` bytes.
pub open spec fn steps_in_order(steps: Seq<WriteStep>, base: int, len: int) -> bool {
    forall|i: int|
        0 <= i < steps.len() ==> match #[trigger] steps[i] {
            WriteStep::Write { start, end } => start == base + bytes_sent(steps.take(i))
                && start < end,
            WriteStep::Complete => base + bytes_sent(steps.take(i)) == len,
            _ => true,
        }
}

/// How many further positive capacity reports the writer needs to complete.
pub open spec fn reports_to_complete(w: ChunkWriter) -> int {
    (w.len - w.offset) + if w.flushing {
        1int
    } else {
        2int
    }
}

proof fn lemma_writer_run(w0: ChunkWriter, caps: Seq<u64>)
    requires
        w0.wf(),
    ensures
        writer_run(w0, caps).0.wf(),
        writer_run(w0, caps).0.len == w0.len,
        bytes_sent(writer_run(w0, caps).1) == writer_run(w0, caps).0.offset - w0.offset,
        steps_in_order(writer_run(w0, caps).1, w0.offset as int, w0.len as int),
        writer_run(w0, caps).1.len() == caps.len(),
        (forall|i: int| 0 <= i < caps.len() ==> #[trigger] caps[i] > 0) && caps.len()
            >= reports_to_complete(w0) ==> writer_run(w0, caps).1.contains(WriteStep::Complete),
    decreases caps.len(),
{
    if caps.len() > 0 {
        let (w1, s) = writer_step(w0, Capacity::Bytes(caps[0]));
        let tail = caps.drop_first();
        lemma_writer_run(w1, tail);
        let (w2, rest) = writer_run(w1, tail);
        let steps = seq![s] + rest;
        assert(steps.drop_first() =~= rest);
        assert(w1.offset == w0.offset + step_bytes(s));
        assert forall|i: int| 0 <= i < steps.len() implies match #[trigger] steps[i] {
            WriteStep::Write { start, end } => start == w0.offset + bytes_sent(steps.take(i))
                && start < end,
            WriteStep::Complete => w0.offset + bytes_sent(steps.take(i)) == w0.len,
            _ => true,
        } by {
            if i == 0 {
                assert(steps.take(0) =~= Seq::<WriteStep>::empty());
            } else {
                assert(steps.take(i).drop_first() =~= rest.take(i - 1));
                assert(steps[i] == rest[i - 1]);
            }
        }
        if (forall|i: int| 0 <= i < caps.len() ==> #[trigger] caps[i] > 0) && caps.len()
            >= reports_to_complete(w0) {
            assert(caps[0] > 0);
            if s == WriteStep::Complete {
                assert(steps[0] == WriteStep::Complete);
            } else {
                assert forall|i: int| 0 <= i < tail.len() implies #[trigger] tail[i] > 0 by {
                    assert(tail[i] == caps[i + 1]);
                }
                let j = choose|j: int| 0 <= j < rest.len() && rest[j] == WriteStep::Complete;
                assert(steps[j + 1] == WriteStep::Complete);
            }
        }
    }
}

/// Whatever capacities the host reports, the bytes of a chunk of `len` bytes
/// go out in order and each exactly once: every write starts where the
/// previous one ended, no more than `len` bytes are ever written, and the
/// chunk is reported complete only after exactly `len` bytes have been
/// written. And while every report is positive, `len + 2` reports suffice
/// for it to complete, however the capacity splits the chunk.
pub proof fn chunk_written_exactly_once(len: usize, caps: Seq<u64>)
    ensures
        ({
            let (w, steps) = writer_run(ChunkWriter { len, offset: 0, flushing: false }, caps);
            &&& bytes_sent(steps) == w.offset <= len
            &&& steps_in_order(steps, 0, len as int)
            &&& (forall|i: int| 0 <= i < caps.len() ==> #[trigger] caps[i] > 0) && caps.len()
                >= len + 2 ==> steps.contains(WriteStep::Complete)
        }),
{
    lemma_writer_run(ChunkWriter { len, offset: 0, flushing: false }, caps);
}

impl ChunkWriter {
    /// A writer at the start of a chunk of `len` bytes.
    pub fn new(len: usize) -> (r: ChunkWriter)
        ensures
            r == (ChunkWriter { len, offset: 0, flushing: false }),
            r.wf(),
    {
        ChunkWriter { len, offset: 0, flushing: false }
    }

    /// Whether the whole chunk has been written.
    pub fn is_written(&self) -> (r: bool)
        ensures
            r == (self.offset == self.len),
    {
        self.offset == self.len
    }

    /// Takes the host's capacity report and returns the step to perform.
    pub fn step(&mut self, cap: Capacity) -> (r: WriteStep)
        requires
            old(self).wf(),
        ensures
            (*final(self), r) == writer_step(*old(self), cap),
            final(self).wf(),
    {
        match cap {
            Capacity::Failed => WriteStep::Fail,
            Capacity::Bytes(k) => {
                if k == 0 {
                    WriteStep::Suspend
                } else if self.offset == self.len {
                    if self.flushing {
                        WriteStep::Complete
                    } else {
                        self.flushing = true;
                        WriteStep::Flush
                    }
                } else {
                    let remaining = self.len - self.offset;
                    let n: usize = if k < remaining as u64 {
                        k as usize
                    } else {
                        remaining
                    };
                    let start = self.offset;
                    self.offset = start + n;
                    WriteStep::Write { start, end: self.offset }
                }
            },
        }
    }
}

} // verus!
