//! One end of the link: its address, whether it may transmit, and the
//! assembler that rebuilds frames from bytes that arrive one at a time.

use vstd::prelude::*;

use crate::frame::{
    frame_of, frame_wellformed, lemma_round_trip, packet_valid, parse_frame, Addr, Error, Flags,
    Packet, PacketType, PacketView, BROADCAST, CONTROLLER, FRAME_OVERHEAD, MAX_FRAME_LEN,
};
use crate::raw::{raw_clone, Raw};

verus! {

/// Whether an endpoint may transmit.
#[derive(Clone, Copy, Debug, PartialEq, Eq, Structural)]
pub enum State {
    Ready,
    Waiting,
}

/// What one received byte brought about.
pub ghost enum Arrival {
    /// No complete frame yet.
    Pending,
    /// A frame completed and carried this packet.
    Frame(PacketView),
    /// The frame in progress was dropped with this error.
    Failed(Error),
}

/// Whether the buffered bytes `s` make up a whole frame, going by the length
/// byte of the header.
pub open spec fn frame_complete(s: Seq<u8>) -> bool {
    s.len() >= 3 && s.len() == s[2] + FRAME_OVERHEAD
}

/// The read buffer after byte `b` arrives with `buf` buffered, and what came of it.
pub open spec fn assemble(buf: Seq<u8>, b: u8) -> (Seq<u8>, Arrival) {
    if buf.len() >= MAX_FRAME_LEN {
        (Seq::empty(), Arrival::Failed(Error::Overflow))
    } else if !frame_complete(buf.push(b)) {
        (buf.push(b), Arrival::Pending)
    } else if frame_wellformed(buf.push(b)) {
        (Seq::empty(), Arrival::Frame(parse_frame(buf.push(b))))
    } else {
        (Seq::empty(), Arrival::Failed(Error::ParseError))
    }
}

/// The read buffer after `bytes` arrive one by one with `buf` buffered, and
/// every arrival other than `Pending`, in order.
pub open spec fn assemble_all(buf: Seq<u8>, bytes: Seq<u8>) -> (Seq<u8>, Seq<Arrival>)
    decreases bytes.len(),
{
    if bytes.len() == 0 {
        (buf, Seq::empty())
    } else {
        let (b1, events) = assemble_all(buf, bytes.drop_last());
        let (b2, a) = assemble(b1, bytes.last());
        (b2, if a is Pending { events } else { events.push(a) })
    }
}

/// Every strict prefix of a frame, fed to an empty assembler byte by byte,
/// leaves exactly that prefix buffered with nothing reported.
pub proof fn lemma_prefix_pending(p: PacketView, k: int)
    requires
        packet_valid(p),
        0 <= k < frame_of(p).len(),
    ensures
        assemble_all(Seq::empty(), frame_of(p).take(k)) == (frame_of(p).take(k), Seq::<Arrival>::empty()),
    decreases k,
{
    let f = frame_of(p);
    if k == 0 {
        assert(f.take(0) =~= Seq::<u8>::empty());
    } else {
        lemma_prefix_pending(p, k - 1);
        assert(f.take(k).drop_last() =~= f.take(k - 1));
        assert(f.take(k - 1).push(f[k - 1]) =~= f.take(k));
        assert(f.len() == p.data.len() + FRAME_OVERHEAD);
        if k >= 3 {
            assert(f.take(k)[2] == f[2]);
        }
    }
}

/// A frame fed to an empty assembler byte by byte, whatever pauses come
/// between the bytes, yields exactly one packet, the one it carries, and
/// leaves the buffer empty.
pub proof fn lemma_frame_arrives(p: PacketView)
    requires
        packet_valid(p),
    ensures
        assemble_all(Seq::empty(), frame_of(p)) == (Seq::<u8>::empty(), seq![Arrival::Frame(p)]),
{
    let f = frame_of(p);
    let n = f.len();
    lemma_prefix_pending(p, n - 1);
    lemma_round_trip(p);
    assert(f.drop_last() =~= f.take(n - 1));
    assert(f.take(n - 1).push(f[n - 1]) =~= f);
    assert(Seq::<Arrival>::empty().push(Arrival::Frame(p)) =~= seq![Arrival::Frame(p)]);
}

/// Feeding `a` and then `c` is feeding `a + c`.
pub proof fn lemma_assemble_all_append(buf: Seq<u8>, a: Seq<u8>, c: Seq<u8>)
    ensures
        assemble_all(buf, a + c) == (
            assemble_all(assemble_all(buf, a).0, c).0,
            assemble_all(buf, a).1 + assemble_all(assemble_all(buf, a).0, c).1,
        ),
    decreases c.len(),
{
    if c.len() == 0 {
        assert(a + c =~= a);
        assert(assemble_all(buf, a).1 + Seq::<Arrival>::empty() =~= assemble_all(buf, a).1);
    } else {
        lemma_assemble_all_append(buf, a, c.drop_last());
        assert((a + c).drop_last() =~= a + c.drop_last());
        assert((a + c).last() == c.last());
        let mid = assemble_all(buf, a);
        let rest = assemble_all(mid.0, c.drop_last());
        let (b2, x) = assemble(rest.0, c.last());
        assert(mid.1 + rest.1.push(x) =~= (mid.1 + rest.1).push(x));
    }
}

/// A byte that arrives with the buffer full reports one overflow and empties
/// the buffer, after which the next frame is received as from a fresh start.
pub proof fn lemma_overflow_recovers(buf: Seq<u8>, b: u8, p: PacketView)
    requires
        buf.len() == MAX_FRAME_LEN,
        packet_valid(p),
    ensures
        assemble_all(buf, seq![b] + frame_of(p)) == (
            Seq::<u8>::empty(),
            seq![Arrival::Failed(Error::Overflow), Arrival::Frame(p)],
        ),
{
    lemma_assemble_all_append(buf, seq![b], frame_of(p));
    assert(seq![b].drop_last() =~= Seq::<u8>::empty());
    assert(assemble_all(buf, Seq::<u8>::empty()) == (buf, Seq::<Arrival>::empty()));
    assert(assemble(buf, b) == (Seq::<u8>::empty(), Arrival::Failed(Error::Overflow)));
    assert(assemble_all(buf, seq![b]) == (
        Seq::<u8>::empty(),
        Seq::<Arrival>::empty().push(Arrival::Failed(Error::Overflow)),
    ));
    lemma_frame_arrives(p);
    assert(Seq::<Arrival>::empty().push(Arrival::Failed(Error::Overflow)) + seq![Arrival::Frame(p)]
        =~= seq![Arrival::Failed(Error::Overflow), Arrival::Frame(p)]);
}

/// What a result of `push_byte` tells.
pub open spec fn arrival_of(r: Result<Option<Packet<Raw>>, Error>) -> Arrival {
    match r {
        Ok(None) => Arrival::Pending,
        Ok(Some(p)) => Arrival::Frame(p@),
        Err(e) => Arrival::Failed(e),
    }
}

/// A command to `dest` with no flags set.
pub open spec fn command_view(dest: u8, data: Seq<u8>) -> PacketView {
    PacketView { typ: PacketType::Command, flags: 0, target: dest, data }
}

/// Whether `a` may be a peripheral's address: neither the controller's nor broadcast.
pub open spec fn peripheral_addr(a: u8) -> bool {
    a != CONTROLLER && a != BROADCAST
}

/// A controller or a peripheral, with the read buffer of its receive path.
pub struct Endpoint {
    addr: Addr,
    state: State,
    buf: Vec<u8>,
}

impl Endpoint {
    pub closed spec fn addr_spec(&self) -> u8 {
        self.addr.0
    }

    pub closed spec fn state_spec(&self) -> State {
        self.state
    }

    /// The bytes of the frame in progress.
    pub closed spec fn buffered(&self) -> Seq<u8> {
        self.buf@
    }

    pub open spec fn wf(&self) -> bool {
        &&& self.buffered().len() <= MAX_FRAME_LEN
        &&& self.addr_spec() == CONTROLLER || peripheral_addr(self.addr_spec())
    }

    /// The controller: it holds the controller's address and may transmit at once.
    pub fn controller() -> (r: Endpoint)
        ensures
            r.wf(),
            r.addr_spec() == CONTROLLER,
            r.state_spec() == State::Ready,
            r.buffered() == Seq::<u8>::empty(),
    {
        Endpoint { addr: Addr::controller(), state: State::Ready, buf: Vec::with_capacity(MAX_FRAME_LEN) }
    }

    /// A peripheral at `addr`, waiting until it is allowed to transmit; none
    /// where `addr` is the controller's or broadcast.
    pub fn peripheral(addr: Addr) -> (r: Option<Endpoint>)
        ensures
            peripheral_addr(addr.0) <==> r is Some,
            r matches Some(e) ==> {
                &&& e.wf()
                &&& e.addr_spec() == addr.0
                &&& e.state_spec() == State::Waiting
                &&& e.buffered() == Seq::<u8>::empty()
            },
    {
        if addr.0 == CONTROLLER || addr.0 == BROADCAST {
            None
        } else {
            Some(Endpoint { addr, state: State::Waiting, buf: Vec::with_capacity(MAX_FRAME_LEN) })
        }
    }

    pub fn addr(&self) -> (r: Addr)
        ensures
            r.0 == self.addr_spec(),
    {
        self.addr
    }

    pub fn state(&self) -> (r: State)
        ensures
            r == self.state_spec(),
    {
        self.state
    }

    /// Let the application grant or withdraw permission to transmit.
    pub fn set_state(&mut self, state: State)
        ensures
            final(self).state_spec() == state,
            final(self).addr_spec() == old(self).addr_spec(),
            final(self).buffered() == old(self).buffered(),
    {
        self.state = state;
    }

    /// The frame to put on the wire for `p`; `NotReady`, with nothing to
    /// write, unless the endpoint is `Ready`.
    pub fn send(&self, p: &Packet<Raw>) -> (r: Result<Vec<u8>, Error>)
        ensures
            self.state_spec() == State::Waiting ==> r == Err::<Vec<u8>, Error>(Error::NotReady),
            self.state_spec() == State::Ready ==> (r matches Ok(v) && v@ == frame_of(p@)),
    {
        match self.state {
            State::Waiting => Err(Error::NotReady),
            State::Ready => Ok(p.frame_bytes()),
        }
    }

    /// The frame of a command to `dest`, with no flags set, under the same
    /// rule as `send`.
    pub fn send_command(&self, dest: Addr, command: &Raw) -> (r: Result<Vec<u8>, Error>)
        ensures
            self.state_spec() == State::Waiting ==> r == Err::<Vec<u8>, Error>(Error::NotReady),
            self.state_spec() == State::Ready ==> (r matches Ok(v) && v@ == frame_of(
                command_view(dest.0, crate::raw::raw_bytes(*command)),
            )),
    {
        let p = Packet::new(PacketType::Command, Flags::empty(), dest, raw_clone(command));
        self.send(&p)
    }

    /// Take in one received byte. The buffer grows until the length byte of
    /// the header says the frame is whole; the frame is then decoded and the
    /// buffer cleared, whether it decoded or not. A byte that arrives with the
    /// buffer full is an overflow, which clears the buffer too.
    pub fn push_byte(&mut self, b: u8) -> (r: Result<Option<Packet<Raw>>, Error>)
        requires
            old(self).wf(),
        ensures
            final(self).wf(),
            final(self).addr_spec() == old(self).addr_spec(),
            final(self).state_spec() == old(self).state_spec(),
            (final(self).buffered(), arrival_of(r)) == assemble(old(self).buffered(), b),
    {
        if self.buf.len() >= MAX_FRAME_LEN {
            self.buf.clear();
            return Err(Error::Overflow);
        }
        self.buf.push(b);
        if self.buf.len() < 3 || self.buf.len() != self.buf[2] as usize + FRAME_OVERHEAD {
            return Ok(None);
        }
        let r = Packet::read_raw(self.buf.as_slice());
        self.buf.clear();
        match r {
            Ok(p) => Ok(Some(p)),
            Err(e) => Err(e),
        }
    }

    /// Take in received bytes in order until one of them completes a frame or
    /// fails one; returns how many were taken and what the last one brought.
    /// The bytes not taken are left for the next call.
    pub fn push_bytes(&mut self, bytes: &[u8]) -> (r: (usize, Result<Option<Packet<Raw>>, Error>))
        requires
            old(self).wf(),
        ensures
            final(self).wf(),
            final(self).addr_spec() == old(self).addr_spec(),
            final(self).state_spec() == old(self).state_spec(),
            r.0 <= bytes@.len(),
            r.1 matches Ok(None) ==> r.0 == bytes@.len(),
            !(r.1 matches Ok(None)) ==> r.0 > 0 && assemble_all(
                old(self).buffered(),
                bytes@.take(r.0 - 1),
            ).1 == Seq::<Arrival>::empty(),
            assemble_all(old(self).buffered(), bytes@.take(r.0 as int)) == (
                final(self).buffered(),
                if r.1 matches Ok(None) {
                    Seq::<Arrival>::empty()
                } else {
                    seq![arrival_of(r.1)]
                },
            ),
    {
        let ghost start = self.buffered();
        let mut i: usize = 0;
        proof {
            assert(bytes@.take(0) =~= Seq::<u8>::empty());
        }
        while i < bytes.len()
            invariant
                self.wf(),
                start == old(self).buffered(),
                i <= bytes@.len(),
                self.addr_spec() == old(self).addr_spec(),
                self.state_spec() == old(self).state_spec(),
                assemble_all(start, bytes@.take(i as int)) == (self.buffered(), Seq::<Arrival>::empty()),
            decreases bytes@.len() - i,
        {
            proof {
                assert(bytes@.take(i + 1).drop_last() =~= bytes@.take(i as int));
            }
            let r = self.push_byte(bytes[i]);
            i = i + 1;
            match r {
                Ok(None) => {},
                _ => {
                    proof {
                        assert(Seq::<Arrival>::empty().push(arrival_of(r)) =~= seq![arrival_of(r)]);
                    }
                    return (i, r);
                },
            }
        }
        proof {
            assert(bytes@.take(i as int) =~= bytes@);
        }
        (i, Ok(None))
    }

    /// The byte source failed: drop the frame in progress and report it.
    pub fn read_failed(&mut self) -> (r: Error)
        requires
            old(self).wf(),
        ensures
            final(self).wf(),
            r == Error::IoError,
            final(self).buffered() == Seq::<u8>::empty(),
            final(self).addr_spec() == old(self).addr_spec(),
            final(self).state_spec() == old(self).state_spec(),
    {
        self.clear();
        Error::IoError
    }

    /// Drop the frame in progress.
    pub fn clear(&mut self)
        requires
            old(self).wf(),
        ensures
            final(self).wf(),
            final(self).buffered() == Seq::<u8>::empty(),
            final(self).addr_spec() == old(self).addr_spec(),
            final(self).state_spec() == old(self).state_spec(),
    {
        self.buf.clear();
    }
}

} // verus!
