//! Redirect policies of a spawned process's descriptors, and the model of
//! the guest-side buffer that a pipe redirect captures output into.
//!
//! A blocking pipe holds at most its capacity and refuses what does not fit
//! (the producer waits); a cyclic pipe keeps only the last `capacity` bytes.
//! Offsets are logical: they count from the first byte ever produced.

use crate::wire::append_range;
use vstd::prelude::*;

verus! {

/// How one descriptor of a spawned process is wired; fixed at spawn.
/// `Inherit` captures nothing.
#[derive(Debug, Clone)]
pub enum RedirectSpec {
    Inherit,
    PipeBlocking { capacity: u64 },
    PipeCyclic { capacity: u64 },
    File { path: String },
}

/// The three redirects of a process, for stdin, stdout and stderr.
#[derive(Debug, Clone)]
pub struct Redirects {
    pub stdin: RedirectSpec,
    pub stdout: RedirectSpec,
    pub stderr: RedirectSpec,
}

#[derive(Debug, Clone, Copy, PartialEq, Eq, Structural)]
pub enum BufferMode {
    Blocking,
    Cyclic,
}

pub struct OutputView {
    pub mode: BufferMode,
    pub capacity: nat,
    /// Logical offset of the first byte still held.
    pub start: nat,
    /// The bytes still held.
    pub data: Seq<u8>,
    /// Every byte the buffer has accepted, in order.
    pub produced: Seq<u8>,
}

pub open spec fn min_nat(a: nat, b: nat) -> nat {
    if a <= b {
        a
    } else {
        b
    }
}

pub open spec fn max_int(a: int, b: int) -> int {
    if a >= b {
        a
    } else {
        b
    }
}

pub open spec fn min_int(a: int, b: int) -> int {
    if a <= b {
        a
    } else {
        b
    }
}

/// What a query of `length` bytes at logical `offset` returns: the part of
/// the window that is still held, possibly empty.
pub open spec fn query_result(v: OutputView, offset: int, length: int) -> Seq<u8> {
    let lo = max_int(offset, v.start as int);
    let hi = min_int(offset + length, v.produced.len() as int);
    if lo < hi {
        v.produced.subrange(lo, hi)
    } else {
        Seq::empty()
    }
}

/// How many bytes of a write of `n` bytes the buffer takes.
pub open spec fn accepted_len(v: OutputView, n: nat) -> nat {
    match v.mode {
        BufferMode::Blocking => min_nat(n, (v.capacity - v.data.len()) as nat),
        BufferMode::Cyclic => n,
    }
}

pub struct OutputBuffer {
    mode: BufferMode,
    capacity: u64,
    start: u64,
    data: Vec<u8>,
    produced: Ghost<Seq<u8>>,
}

impl View for OutputBuffer {
    type V = OutputView;

    closed spec fn view(&self) -> OutputView {
        OutputView {
            mode: self.mode,
            capacity: self.capacity as nat,
            start: self.start as nat,
            data: self.data@,
            produced: self.produced@,
        }
    }
}

impl OutputView {
    /// The buffer holds exactly the produced bytes from `start` on, never
    /// more than its capacity: all of them in blocking mode, the last
    /// `capacity` in cyclic mode.
    pub open spec fn wf(self) -> bool {
        &&& self.data.len() <= self.capacity
        &&& self.start + self.data.len() == self.produced.len()
        &&& self.produced.len() <= u64::MAX
        &&& self.data == self.produced.subrange(self.start as int, self.produced.len() as int)
        &&& self.mode == BufferMode::Blocking ==> self.start == 0
        &&& self.mode == BufferMode::Cyclic ==> self.data.len() == min_nat(
            self.capacity,
            self.produced.len(),
        )
    }
}

impl OutputBuffer {
    /// An empty buffer; one of capacity zero takes nothing (blocking) or
    /// keeps nothing (cyclic).
    pub fn new(mode: BufferMode, capacity: u64) -> (r: OutputBuffer)
        ensures
            r@.wf(),
            r@.mode == mode,
            r@.capacity == capacity,
            r@.produced == Seq::<u8>::empty(),
    {
        let r = OutputBuffer { mode, capacity, start: 0, data: Vec::new(), produced: Ghost(Seq::empty()) };
        assert(r@.data =~= r@.produced.subrange(0, 0));
        r
    }

    /// Logical offset of the first byte still held.
    pub fn start_offset(&self) -> (r: u64)
        ensures
            r == self@.start,
    {
        self.start
    }

    /// Logical offset one past the last byte produced.
    pub fn end_offset(&self) -> (r: u64)
        requires
            self@.wf(),
        ensures
            r == self@.produced.len(),
    {
        self.start + self.data.len() as u64
    }

    /// Number of bytes held.
    pub fn held(&self) -> (r: usize)
        ensures
            r == self@.data.len(),
    {
        self.data.len()
    }

    /// Offers `bytes` to the buffer and returns how many it took. A blocking
    /// buffer takes what fits and discards nothing; a cyclic one takes all
    /// and drops its oldest bytes beyond the capacity.
    pub fn write(&mut self, bytes: &[u8]) -> (r: usize)
        requires
            old(self)@.wf(),
            old(self)@.produced.len() + bytes@.len() <= u64::MAX,
        ensures
            final(self)@.wf(),
            r == accepted_len(old(self)@, bytes@.len()),
            final(self)@.produced == old(self)@.produced + bytes@.subrange(0, r as int),
            final(self)@.mode == old(self)@.mode,
            final(self)@.capacity == old(self)@.capacity,
    {
        let ghost before = self@;
        match self.mode {
            BufferMode::Blocking => {
                let free: u64 = self.capacity - self.data.len() as u64;
                let take: usize = if (bytes.len() as u64) <= free {
                    bytes.len()
                } else {
                    free as usize
                };
                append_range(&mut self.data, bytes, 0, take);
                self.produced = Ghost(before.produced + bytes@.subrange(0, take as int));
                assert(self@.data =~= self@.produced.subrange(0, self@.produced.len() as int));
                take
            },
            BufferMode::Cyclic => {
                let mut all: Vec<u8> = Vec::new();
                let held = self.data.len();
                append_range(&mut all, self.data.as_slice(), 0, held);
                append_range(&mut all, bytes, 0, bytes.len());
                let total = all.len();
                let keep: usize = if (total as u64) <= self.capacity {
                    total
                } else {
                    self.capacity as usize
                };
                let mut kept: Vec<u8> = Vec::new();
                append_range(&mut kept, all.as_slice(), total - keep, total);
                let ghost p = before.produced + bytes@;
                assert(bytes@.subrange(0, bytes@.len() as int) =~= bytes@);
                assert(before.data.subrange(0, held as int) =~= before.data);
                assert(all@ =~= p.subrange(before.start as int, p.len() as int));
                self.start = self.start + (total - keep) as u64;
                self.data = kept;
                self.produced = Ghost(p);
                assert(self@.data =~= p.subrange(self@.start as int, p.len() as int));
                bytes.len()
            },
        }
    }

    /// Returns up to `length` bytes from logical `offset`: only bytes still
    /// held, never bytes from before the discard point.
    pub fn query(&self, offset: u64, length: u64) -> (r: Vec<u8>)
        requires
            self@.wf(),
        ensures
            r@ == query_result(self@, offset as int, length as int),
    {
        let end: u64 = self.start + self.data.len() as u64;
        let lo: u64 = if offset >= self.start {
            offset
        } else {
            self.start
        };
        let hi: u64 = if length <= end && offset <= end - length {
            offset + length
        } else {
            end
        };
        let mut out: Vec<u8> = Vec::new();
        if lo < hi {
            append_range(&mut out, self.data.as_slice(), (lo - self.start) as usize, (hi - self.start) as usize);
            assert(out@ =~= query_result(self@, offset as int, length as int));
        } else {
            assert(out@ =~= query_result(self@, offset as int, length as int));
        }
        out
    }
}

/// The buffer that a pipe redirect captures into: `None` for a redirect
/// that is not a pipe.
pub fn buffer_for(spec: &RedirectSpec) -> (r: Option<OutputBuffer>)
    ensures
        match *spec {
            RedirectSpec::PipeBlocking { capacity } => r matches Some(b) && b@.wf() && b@.mode
                == BufferMode::Blocking && b@.capacity == capacity && b@.produced.len() == 0,
            RedirectSpec::PipeCyclic { capacity } => r matches Some(b) && b@.wf() && b@.mode
                == BufferMode::Cyclic && b@.capacity == capacity && b@.produced.len() == 0,
            _ => r is None,
        },
{
    match spec {
        RedirectSpec::PipeBlocking { capacity } => Some(OutputBuffer::new(BufferMode::Blocking, *capacity)),
        RedirectSpec::PipeCyclic { capacity } => Some(OutputBuffer::new(BufferMode::Cyclic, *capacity)),
        _ => None,
    }
}

/// A blocking pipe never holds more than its capacity, and any window inside
/// the bytes produced so far reads back exactly those bytes.
pub proof fn lemma_blocking_keeps_everything(v: OutputView, offset: nat, length: nat)
    requires
        v.wf(),
        v.mode == BufferMode::Blocking,
        offset + length <= v.produced.len(),
    ensures
        v.data.len() <= v.capacity,
        v.data == v.produced,
        query_result(v, offset as int, length as int) == v.produced.subrange(
            offset as int,
            (offset + length) as int,
        ),
{
    assert(v.data =~= v.produced);
    if length == 0 {
        assert(v.produced.subrange(offset as int, offset as int) =~= Seq::<u8>::empty());
    }
}

/// Once a cyclic pipe has produced more than its capacity, only the last
/// `capacity` bytes can be read back: a window that starts before them is
/// clipped to them, and nothing is returned that was not produced there.
pub proof fn lemma_cyclic_keeps_suffix(v: OutputView, offset: nat, length: nat)
    requires
        v.wf(),
        v.mode == BufferMode::Cyclic,
        v.produced.len() > v.capacity,
    ensures
        v.start == v.produced.len() - v.capacity,
        v.data == v.produced.subrange(v.produced.len() - v.capacity, v.produced.len() as int),
        ({
            let lo = max_int(offset as int, v.start as int);
            let hi = min_int((offset + length) as int, v.produced.len() as int);
            &&& lo < hi ==> query_result(v, offset as int, length as int) == v.produced.subrange(lo, hi)
            &&& hi <= lo ==> query_result(v, offset as int, length as int).len() == 0
        }),
        offset + length <= v.start ==> query_result(v, offset as int, length as int).len() == 0,
{
}

} // verus!
