//! Fan-out of the guest's asynchronous notifications to per-process wake
//! signals.
//!
//! Each spawned process gets two level-triggered signals: output available
//! and died. A notification only raises a flag (several before a wait
//! coalesce into one); a waiter observes and clears it. A process's entry
//! leaves the registry once both kinds have fired and been observed, or when
//! the connection is torn down.

use vstd::hash_map::HashMapWithView;
use vstd::prelude::*;

verus! {

broadcast use vstd::std_specs::hash::group_hash_axioms;

/// An asynchronous event pushed by the guest.
#[derive(Debug, Clone, Copy, PartialEq, Eq, Structural)]
pub enum Notification {
    OutputAvailable { process: u64, fd: u32 },
    ProcessDied { process: u64, reason: u64 },
}

/// The wake state of one process.
#[derive(Debug, Clone, Copy, PartialEq, Eq, Structural)]
pub struct WakeSignals {
    pub output_ready: bool,
    pub output_seen: bool,
    pub died: bool,
    pub died_seen: bool,
}

pub open spec fn process_of(n: Notification) -> u64 {
    match n {
        Notification::OutputAvailable { process, .. } => process,
        Notification::ProcessDied { process, .. } => process,
    }
}

pub open spec fn fresh_signals() -> WakeSignals {
    WakeSignals { output_ready: false, output_seen: false, died: false, died_seen: false }
}

/// The registry after one notification: the named process's flag is raised
/// if it is registered; nothing else changes.
pub open spec fn notified(m: Map<u64, WakeSignals>, n: Notification) -> Map<u64, WakeSignals> {
    let id = process_of(n);
    if m.contains_key(id) {
        let s = m[id];
        match n {
            Notification::OutputAvailable { .. } => m.insert(
                id,
                WakeSignals { output_ready: true, ..s },
            ),
            Notification::ProcessDied { .. } => m.insert(id, WakeSignals { died: true, ..s }),
        }
    } else {
        m
    }
}

/// The registry once `s` is stored for `id`: the entry goes when both kinds
/// have been observed.
pub open spec fn stored(m: Map<u64, WakeSignals>, id: u64, s: WakeSignals) -> Map<u64, WakeSignals> {
    if s.output_seen && s.died_seen {
        m.remove(id)
    } else {
        m.insert(id, s)
    }
}

/// The registry after a waiter observes a process's output signal.
pub open spec fn output_taken(m: Map<u64, WakeSignals>, id: u64) -> Map<u64, WakeSignals> {
    if m.contains_key(id) && m[id].output_ready {
        stored(m, id, WakeSignals { output_ready: false, output_seen: true, ..m[id] })
    } else {
        m
    }
}

/// The registry after a waiter observes a process's died signal.
pub open spec fn died_taken(m: Map<u64, WakeSignals>, id: u64) -> Map<u64, WakeSignals> {
    if m.contains_key(id) && m[id].died {
        stored(m, id, WakeSignals { died_seen: true, ..m[id] })
    } else {
        m
    }
}

pub struct Dispatcher {
    waiters: HashMapWithView<u64, WakeSignals>,
}

impl View for Dispatcher {
    type V = Map<u64, WakeSignals>;

    closed spec fn view(&self) -> Map<u64, WakeSignals> {
        self.waiters@
    }
}

impl Dispatcher {
    pub fn new() -> (r: Dispatcher)
        ensures
            r@ == Map::<u64, WakeSignals>::empty(),
    {
        Dispatcher { waiters: HashMapWithView::new() }
    }

    /// Registers the signals of a process just spawned.
    pub fn register(&mut self, process: u64)
        ensures
            final(self)@ == old(self)@.insert(process, fresh_signals()),
    {
        self.waiters.insert(
            process,
            WakeSignals { output_ready: false, output_seen: false, died: false, died_seen: false },
        );
    }

    pub fn is_registered(&self, process: u64) -> (r: bool)
        ensures
            r == self@.contains_key(process),
    {
        self.waiters.contains_key(&process)
    }

    /// The current signals of a process, if it is registered.
    pub fn signals(&self, process: u64) -> (r: Option<WakeSignals>)
        ensures
            r == (if self@.contains_key(process) {
                Some(self@[process])
            } else {
                None::<WakeSignals>
            }),
    {
        match self.waiters.get(&process) {
            Some(s) => Some(*s),
            None => None,
        }
    }

    /// Handles one notification; never blocks.
    pub fn dispatch(&mut self, n: Notification)
        ensures
            final(self)@ == notified(old(self)@, n),
    {
        let id = match n {
            Notification::OutputAvailable { process, .. } => process,
            Notification::ProcessDied { process, .. } => process,
        };
        match self.waiters.get(&id) {
            None => {},
            Some(s) => {
                let mut t = *s;
                match n {
                    Notification::OutputAvailable { .. } => t.output_ready = true,
                    Notification::ProcessDied { .. } => t.died = true,
                }
                self.waiters.insert(id, t);
            },
        }
    }

    /// Observes the output-available signal of a process: whether it was
    /// raised; it is cleared and counts as seen.
    pub fn take_output(&mut self, process: u64) -> (r: bool)
        ensures
            r == (old(self)@.contains_key(process) && old(self)@[process].output_ready),
            final(self)@ == output_taken(old(self)@, process),
    {
        match self.waiters.get(&process) {
            None => false,
            Some(s) => {
                let mut t = *s;
                if !t.output_ready {
                    return false;
                }
                t.output_ready = false;
                t.output_seen = true;
                self.store(process, t);
                true
            },
        }
    }

    /// Observes the died signal of a process: whether it was raised; once
    /// raised it stays so and counts as seen.
    pub fn take_died(&mut self, process: u64) -> (r: bool)
        ensures
            r == (old(self)@.contains_key(process) && old(self)@[process].died),
            final(self)@ == died_taken(old(self)@, process),
    {
        match self.waiters.get(&process) {
            None => false,
            Some(s) => {
                let mut t = *s;
                if !t.died {
                    return false;
                }
                t.died_seen = true;
                self.store(process, t);
                true
            },
        }
    }

    fn store(&mut self, process: u64, s: WakeSignals)
        ensures
            final(self)@ == stored(old(self)@, process, s),
    {
        if s.output_seen && s.died_seen {
            let _ = self.waiters.remove(&process);
        } else {
            self.waiters.insert(process, s);
        }
    }

    /// Drops every registered signal, as on connection teardown.
    pub fn close(&mut self)
        ensures
            final(self)@ == Map::<u64, WakeSignals>::empty(),
    {
        self.waiters.clear();
    }
}

/// A notification for one process leaves every other process's signals as
/// they were: a wake for one never releases a waiter of another.
pub proof fn lemma_wake_isolation(m: Map<u64, WakeSignals>, n: Notification, other: u64)
    requires
        other != process_of(n),
    ensures
        notified(m, n).contains_key(other) == m.contains_key(other),
        m.contains_key(other) ==> notified(m, n)[other] == m[other],
{
}

/// Output notifications for two processes, in either order, raise exactly
/// their own output flags and touch nothing else.
pub proof fn lemma_concurrent_output_isolated(
    m: Map<u64, WakeSignals>,
    a: u64,
    fa: u32,
    b: u64,
    fb: u32,
)
    requires
        a != b,
        m.contains_key(a),
        m.contains_key(b),
    ensures
        ({
            let ab = notified(
                notified(m, Notification::OutputAvailable { process: a, fd: fa }),
                Notification::OutputAvailable { process: b, fd: fb },
            );
            let ba = notified(
                notified(m, Notification::OutputAvailable { process: b, fd: fb }),
                Notification::OutputAvailable { process: a, fd: fa },
            );
            &&& ab == ba
            &&& ab[a] == WakeSignals { output_ready: true, ..m[a] }
            &&& ab[b] == WakeSignals { output_ready: true, ..m[b] }
            &&& forall|k: u64| k != a && k != b ==> #[trigger] ab.contains_key(k) == m.contains_key(k)
                && (m.contains_key(k) ==> ab[k] == m[k])
        }),
{
    let ab = notified(
        notified(m, Notification::OutputAvailable { process: a, fd: fa }),
        Notification::OutputAvailable { process: b, fd: fb },
    );
    let ba = notified(
        notified(m, Notification::OutputAvailable { process: b, fd: fb }),
        Notification::OutputAvailable { process: a, fd: fa },
    );
    assert(ab =~= ba);
}

} // verus!
