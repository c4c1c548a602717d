//! The network responder's state: the IPv4 identification counter and the
//! buffer that assembles length-prefixed frames from partial reads.
//!
//! On the wire each frame is a two-byte little-endian length followed by
//! exactly that many bytes of Ethernet frame; replies are framed the same way.

use crate::packet::{
    frame_reply, ip_ident, is_echo_request, is_malformed, lemma_echo_uses_ident, lemma_echo_round_trip,
    lemma_malformed_frame_dropped, lemma_reply_len, lemma_unanswered_uses_no_ident, reply_to_frame, uses_ident, ETHERNET_HEADER_LEN,
    ETHERTYPE_ARP,
};
use crate::wire::{append_range, le16, le16_at, opt_seq, push_u16_le, read_u16_be, read_u16_le};
use vstd::prelude::*;

verus! {

/// The largest frame that a two-byte length prefix can describe.
pub const MAX_FRAME_LEN: usize = 0xffff;

pub struct RelayView {
    pub next_ident: u16,
    pub inbox: Seq<u8>,
}

/// Whether a whole frame, prefix included, sits at the front of `inbox`.
pub open spec fn frame_ready(inbox: Seq<u8>) -> bool {
    inbox.len() >= 2 && 2 + le16_at(inbox, 0) <= inbox.len()
}

/// The frame at the front of `inbox`, without its prefix.
pub open spec fn first_frame(inbox: Seq<u8>) -> Seq<u8> {
    inbox.subrange(2, 2 + le16_at(inbox, 0))
}

/// What remains of `inbox` once its first frame is taken.
pub open spec fn after_first_frame(inbox: Seq<u8>) -> Seq<u8> {
    inbox.subrange(2 + le16_at(inbox, 0), inbox.len() as int)
}

/// `f` with its length prefix.
pub open spec fn framed(f: Seq<u8>) -> Seq<u8> {
    le16(f.len() as u16) + f
}

/// The identification counter after one value has been used.
pub open spec fn ident_successor(v: u16) -> u16 {
    ((v + 1) % 0x10000) as u16
}

/// One frame answered: the reply is the responder's answer under the
/// current identification, which advances exactly when an IPv4 reply is
/// produced; buffered input is untouched.
pub open spec fn answered(before: RelayView, f: Seq<u8>, after: RelayView, reply: Option<Seq<u8>>) -> bool {
    &&& reply == frame_reply(f, before.next_ident)
    &&& after.next_ident == if uses_ident(f) {
        ident_successor(before.next_ident)
    } else {
        before.next_ident
    }
    &&& after.inbox == before.inbox
}

pub struct Relay {
    next_ident: u16,
    inbox: Vec<u8>,
}

impl View for Relay {
    type V = RelayView;

    closed spec fn view(&self) -> RelayView {
        RelayView { next_ident: self.next_ident, inbox: self.inbox@ }
    }
}

/// Adds the two-byte length prefix to a frame; `None` for a frame too long
/// for it.
pub fn encode_frame(f: &[u8]) -> (r: Option<Vec<u8>>)
    ensures
        f@.len() <= MAX_FRAME_LEN ==> opt_seq(r) == Some(framed(f@)),
        f@.len() > MAX_FRAME_LEN ==> r is None,
{
    if f.len() > MAX_FRAME_LEN {
        return None;
    }
    let mut out: Vec<u8> = Vec::new();
    push_u16_le(&mut out, f.len() as u16);
    append_range(&mut out, f, 0, f.len());
    assert(f@.subrange(0, f@.len() as int) =~= f@);
    Some(out)
}

impl Relay {
    /// A responder with an empty buffer whose first IPv4 reply carries
    /// identification `first_ident`.
    pub fn new(first_ident: u16) -> (r: Relay)
        ensures
            r@.next_ident == first_ident,
            r@.inbox == Seq::<u8>::empty(),
    {
        Relay { next_ident: first_ident, inbox: Vec::new() }
    }

    /// The identification that the next IPv4 reply carries.
    pub fn next_ident(&self) -> (r: u16)
        ensures
            r == self@.next_ident,
    {
        self.next_ident
    }

    /// Buffers bytes read from the network channel.
    pub fn receive(&mut self, bytes: &[u8])
        ensures
            final(self)@.inbox == old(self)@.inbox + bytes@,
            final(self)@.next_ident == old(self)@.next_ident,
    {
        let n = bytes.len();
        append_range(&mut self.inbox, bytes, 0, n);
        assert(bytes@.subrange(0, n as int) =~= bytes@);
    }

    /// Takes the first whole frame out of the buffer, if one is there.
    pub fn next_frame(&mut self) -> (r: Option<Vec<u8>>)
        ensures
            final(self)@.next_ident == old(self)@.next_ident,
            frame_ready(old(self)@.inbox) ==> opt_seq(r) == Some(first_frame(old(self)@.inbox))
                && final(self)@.inbox == after_first_frame(old(self)@.inbox),
            !frame_ready(old(self)@.inbox) ==> r is None && final(self)@.inbox == old(self)@.inbox,
    {
        let n = self.inbox.len();
        if n < 2 {
            return None;
        }
        let len: usize = read_u16_le(self.inbox.as_slice(), 0) as usize;
        if 2 + len > n {
            return None;
        }
        let mut frame: Vec<u8> = Vec::new();
        append_range(&mut frame, self.inbox.as_slice(), 2, 2 + len);
        let mut rest: Vec<u8> = Vec::new();
        append_range(&mut rest, self.inbox.as_slice(), 2 + len, n);
        self.inbox = rest;
        assert(frame@ =~= first_frame(old(self)@.inbox));
        assert(self.inbox@ =~= after_first_frame(old(self)@.inbox));
        Some(frame)
    }

    /// Answers one Ethernet frame, drawing an identification for an IPv4
    /// reply from the counter.
    pub fn answer(&mut self, f: &[u8]) -> (r: Option<Vec<u8>>)
        ensures
            answered(old(self)@, f@, final(self)@, opt_seq(r)),
    {
        proof {
            reveal(frame_reply);
            reveal(uses_ident);
        }
        let r = reply_to_frame(f, self.next_ident);
        let arp = f.len() >= ETHERNET_HEADER_LEN && read_u16_be(f, 12) == ETHERTYPE_ARP;
        if r.is_some() && !arp {
            assert(uses_ident(f@));
            self.next_ident = if self.next_ident == 0xffff { 0 } else { self.next_ident + 1 };
        } else {
            assert(!uses_ident(f@));
        }
        r
    }

    /// Takes the next whole frame from the buffer and answers it: `None`
    /// when no whole frame is buffered, else the framed reply, if any.
    pub fn poll(&mut self) -> (r: Option<Option<Vec<u8>>>)
        ensures
            !frame_ready(old(self)@.inbox) ==> r is None && final(self)@ == old(self)@,
            frame_ready(old(self)@.inbox) ==> ({
                let f = first_frame(old(self)@.inbox);
                let mid = RelayView { next_ident: old(self)@.next_ident, inbox: after_first_frame(old(self)@.inbox) };
                &&& r is Some
                &&& answered(mid, f, final(self)@, frame_reply(f, old(self)@.next_ident))
                &&& match frame_reply(f, old(self)@.next_ident) {
                    Some(reply) => opt_seq(r->0) == Some(framed(reply)),
                    None => r->0 is None,
                }
            }),
    {
        match self.next_frame() {
            None => None,
            Some(f) => {
                let reply = self.answer(f.as_slice());
                match reply {
                    None => Some(None),
                    Some(bytes) => {
                        proof {
                            lemma_reply_len(f@, old(self)@.next_ident);
                        }
                        Some(encode_frame(bytes.as_slice()))
                    },
                }
            },
        }
    }
}

/// Consecutive echo requests are answered with consecutive identifications
/// (modulo 2^16), starting from the counter's value before the first.
pub proof fn lemma_consecutive_idents(
    states: Seq<RelayView>,
    frames: Seq<Seq<u8>>,
    replies: Seq<Option<Seq<u8>>>,
)
    requires
        states.len() == frames.len() + 1,
        replies.len() == frames.len(),
        forall|i: int| 0 <= i < frames.len() ==> is_echo_request(#[trigger] frames[i]),
        forall|i: int|
            0 <= i < frames.len() ==> answered(
                #[trigger] states[i],
                frames[i],
                states[i + 1],
                replies[i],
            ),
    ensures
        forall|i: int|
            0 <= i < frames.len() ==> (#[trigger] replies[i]) is Some && ip_ident(replies[i]->0) == (
            states[0].next_ident + i) % 0x10000,
{
    assert forall|i: int| 0 <= i < frames.len() implies (#[trigger] replies[i]) is Some && ip_ident(
        replies[i]->0,
    ) == (states[0].next_ident + i) % 0x10000 by {
        assert forall|j: int| 0 <= j < frames.len() implies uses_ident(#[trigger] frames[j]) by {
            lemma_echo_uses_ident(frames[j]);
        }
        lemma_counter_after(states, frames, replies, i);
        let f = frames[i];
        assert(answered(states[i], f, states[i + 1], replies[i]));
        lemma_echo_round_trip(f, states[i].next_ident);
    }
}

proof fn lemma_counter_after(
    states: Seq<RelayView>,
    frames: Seq<Seq<u8>>,
    replies: Seq<Option<Seq<u8>>>,
    i: int,
)
    requires
        states.len() == frames.len() + 1,
        replies.len() == frames.len(),
        forall|i: int| 0 <= i < frames.len() ==> uses_ident(#[trigger] frames[i]),
        forall|i: int|
            0 <= i < frames.len() ==> answered(
                #[trigger] states[i],
                frames[i],
                states[i + 1],
                replies[i],
            ),
        0 <= i <= frames.len(),
    ensures
        states[i].next_ident == (states[0].next_ident + i) % 0x10000,
    decreases i,
{
    if i > 0 {
        lemma_counter_after(states, frames, replies, i - 1);
        let f = frames[i - 1];
        assert(answered(states[i - 1], f, states[i], replies[i - 1]));
        assert(uses_ident(f));
        let a = states[0].next_ident as int;
        vstd::arithmetic::div_mod::lemma_add_mod_noop(a + i - 1, 1, 0x10000);
        assert(states[i].next_ident == ((a + i - 1) % 0x10000 + 1) % 0x10000);
    }
}

/// A frame that gets no reply (a malformed one among them, see
/// `is_malformed`) leaves the responder's state as it was, so the frame after
/// it is answered exactly as if it had not been there.
pub proof fn lemma_dropped_frame_harmless(
    s0: RelayView,
    dropped: Seq<u8>,
    s1: RelayView,
    r1: Option<Seq<u8>>,
    next: Seq<u8>,
    s2: RelayView,
    r2: Option<Seq<u8>>,
    t2: RelayView,
    q2: Option<Seq<u8>>,
)
    requires
        frame_reply(dropped, s0.next_ident) is None,
        answered(s0, dropped, s1, r1),
        answered(s1, next, s2, r2),
        answered(s0, next, t2, q2),
    ensures
        r1 is None,
        s1 == s0,
        r2 == q2,
        s2 == t2,
{
    lemma_unanswered_uses_no_ident(dropped, s0.next_ident);
}

/// A malformed frame gets no reply and leaves the responder's state as it
/// was, so the frame after it is answered exactly as if it had not been there.
pub proof fn lemma_malformed_frame_harmless(
    s0: RelayView,
    bad: Seq<u8>,
    s1: RelayView,
    r1: Option<Seq<u8>>,
    next: Seq<u8>,
    s2: RelayView,
    r2: Option<Seq<u8>>,
    t2: RelayView,
    q2: Option<Seq<u8>>,
)
    requires
        is_malformed(bad),
        answered(s0, bad, s1, r1),
        answered(s1, next, s2, r2),
        answered(s0, next, t2, q2),
    ensures
        r1 is None,
        s1 == s0,
        r2 == q2,
        s2 == t2,
{
    lemma_malformed_frame_dropped(bad, s0.next_ident);
    lemma_dropped_frame_harmless(s0, bad, s1, r1, next, s2, r2, t2, q2);
}

} // verus!
