//! Packets and their wire form.
//!
//! A frame is laid out as
//! `[address:1][type:1][length:1][flags:1][payload:length][checksum:4]`,
//! where the checksum is the CRC-32/IEEE of everything before it, least
//! significant byte first. The payload holds at most `PACKET_LEN` bytes, so a
//! frame is between `FRAME_OVERHEAD` and `MAX_FRAME_LEN` bytes long.

use vstd::prelude::*;

use crate::digest::{
    crc_of, le_bytes, le_value, lemma_crc_of_push, DigesterInput, DigesterOutput, CHECKSUM_LEN,
};
use crate::raw::{raw_as_slice, raw_bytes, raw_from_slice, Encode, Raw, PACKET_LEN};

verus! {

/// Number of header bytes before the payload.
pub const HEADER_LEN: usize = 4;

/// Header and checksum bytes of a frame: its length with an empty payload.
pub const FRAME_OVERHEAD: usize = 8;

/// The longest frame: a full payload with header and checksum.
pub const MAX_FRAME_LEN: usize = 40;

/// What can go wrong while sending or receiving.
#[derive(Clone, Copy, Debug, PartialEq, Eq, Structural)]
pub enum Error {
    /// The byte transport failed.
    IoError,
    /// A frame is malformed: unknown type or flags, bad length, or checksum mismatch.
    ParseError,
    /// The endpoint may not transmit yet.
    NotReady,
    /// More bytes arrived than the longest frame holds.
    Overflow,
    /// Anything else.
    General,
}

/// A device address. `CONTROLLER` is the controller's; `BROADCAST` reaches all devices.
#[derive(Clone, Copy, Debug, PartialEq, Eq, Structural)]
pub struct Addr(pub u8);

/// The controller's address byte.
pub const CONTROLLER: u8 = 0;

/// The broadcast address byte.
pub const BROADCAST: u8 = 255;

impl Addr {
    /// The controller's address.
    pub fn controller() -> (r: Addr)
        ensures
            r.0 == CONTROLLER,
    {
        Addr(CONTROLLER)
    }

    /// The address that reaches every device.
    pub fn broadcast() -> (r: Addr)
        ensures
            r.0 == BROADCAST,
    {
        Addr(BROADCAST)
    }
}

/// What a packet is for.
#[derive(Clone, Copy, Debug, PartialEq, Eq, Structural)]
pub enum PacketType {
    Command,
    MidiEvent,
    Raw,
}

/// The wire code of each packet type.
pub open spec fn type_code(t: PacketType) -> u8 {
    match t {
        PacketType::Command => 0x01,
        PacketType::MidiEvent => 0x02,
        PacketType::Raw => 0xff,
    }
}

/// The packet type with wire code `b`, if there is one.
pub open spec fn type_of_code(b: u8) -> Option<PacketType> {
    if b == 0x01 {
        Some(PacketType::Command)
    } else if b == 0x02 {
        Some(PacketType::MidiEvent)
    } else if b == 0xff {
        Some(PacketType::Raw)
    } else {
        None
    }
}

impl PacketType {
    /// The wire code of this type.
    pub fn code(self) -> (r: u8)
        ensures
            r == type_code(self),
    {
        match self {
            PacketType::Command => 0x01,
            PacketType::MidiEvent => 0x02,
            PacketType::Raw => 0xff,
        }
    }

    /// The type with wire code `value`; an unknown code is a parse error.
    pub fn try_from(value: u8) -> (r: Result<PacketType, Error>)
        ensures
            type_of_code(value) matches Some(t) ==> r == Ok::<PacketType, Error>(t),
            type_of_code(value) is None ==> r == Err::<PacketType, Error>(Error::ParseError),
    {
        match value {
            0x01 => Ok(PacketType::Command),
            0x02 => Ok(PacketType::MidiEvent),
            0xff => Ok(PacketType::Raw),
            _ => Err(Error::ParseError),
        }
    }
}

/// The flag bits that this protocol knows: only "ignore".
pub const KNOWN_FLAGS: u8 = 0x01;

/// Whether `bits` sets no flag outside the known ones.
pub open spec fn flags_known(bits: u8) -> bool {
    bits & !KNOWN_FLAGS == 0
}

/// Per-packet modifiers, as a set of bits.
#[derive(Clone, Copy, Debug, PartialEq, Eq, Structural)]
pub struct Flags {
    pub bits: u8,
}

impl Flags {
    /// The bit that asks the receiver to ignore the packet (send no reply).
    pub const IGNORE_BIT: u8 = 0x01;

    /// No flags set.
    pub fn empty() -> (r: Flags)
        ensures
            r.bits == 0,
    {
        Flags { bits: 0 }
    }

    /// Only the "ignore" flag set.
    pub fn ignore() -> (r: Flags)
        ensures
            r.bits == Self::IGNORE_BIT,
    {
        Flags { bits: Self::IGNORE_BIT }
    }

    /// The flags with these bits, unless a bit is unknown.
    pub fn from_bits(bits: u8) -> (r: Option<Flags>)
        ensures
            flags_known(bits) <==> r is Some,
            r matches Some(f) ==> f.bits == bits,
    {
        if bits & !KNOWN_FLAGS == 0 {
            Some(Flags { bits })
        } else {
            None
        }
    }

    pub fn bits(&self) -> (r: u8)
        ensures
            r == self.bits,
    {
        self.bits
    }
}

/// Packet carrying data of type `D`; `Packet<Raw>` is the form that goes on the wire.
pub struct Packet<D> {
    pub typ: PacketType,
    pub flags: Flags,
    pub target: Addr,
    pub data: D,
}

/// What a wire-ready packet holds, with its payload as a sequence of bytes.
pub ghost struct PacketView {
    pub typ: PacketType,
    pub flags: u8,
    pub target: u8,
    pub data: Seq<u8>,
}

impl View for Packet<Raw> {
    type V = PacketView;

    open spec fn view(&self) -> PacketView {
        PacketView {
            typ: self.typ,
            flags: self.flags.bits,
            target: self.target.0,
            data: raw_bytes(self.data),
        }
    }
}

/// The frame bytes before the checksum.
pub open spec fn body_of(p: PacketView) -> Seq<u8> {
    seq![p.target, type_code(p.typ), p.data.len() as u8, p.flags] + p.data
}

/// The frame that carries `p`.
pub open spec fn frame_of(p: PacketView) -> Seq<u8> {
    body_of(p) + le_bytes(crc_of(body_of(p)))
}

/// Whether `p` can be carried by a frame and read back: its payload fits and
/// its flags are known.
pub open spec fn packet_valid(p: PacketView) -> bool {
    p.data.len() <= PACKET_LEN && flags_known(p.flags)
}

/// Whether `s` is exactly one well-formed frame.
pub open spec fn frame_wellformed(s: Seq<u8>) -> bool {
    &&& s.len() >= FRAME_OVERHEAD
    &&& type_of_code(s[1]) is Some
    &&& s[2] <= PACKET_LEN
    &&& flags_known(s[3])
    &&& s.len() == s[2] + FRAME_OVERHEAD
    &&& le_value(s[s.len() - 4], s[s.len() - 3], s[s.len() - 2], s[s.len() - 1]) == crc_of(
        s.take(s.len() - 4),
    )
}

/// The packet that a well-formed frame carries.
pub open spec fn parse_frame(s: Seq<u8>) -> PacketView {
    PacketView {
        typ: type_of_code(s[1])->Some_0,
        flags: s[3],
        target: s[0],
        data: s.subrange(HEADER_LEN as int, s.len() - CHECKSUM_LEN),
    }
}

impl<D> Packet<D> {
    /// Build a packet.
    pub fn new(typ: PacketType, flags: Flags, target: Addr, data: D) -> (r: Packet<D>)
        ensures
            r.typ == typ,
            r.flags == flags,
            r.target == target,
            r.data == data,
    {
        Packet { typ, flags, target, data }
    }

    /// The same header with other data.
    pub fn with_data<F>(&self, data: F) -> (r: Packet<F>)
        ensures
            r.typ == self.typ,
            r.flags == self.flags,
            r.target == self.target,
            r.data == data,
    {
        Packet { typ: self.typ, flags: self.flags, target: self.target, data }
    }
}

impl<D: Encode> Packet<D> {
    /// What this packet holds once its data is rendered to bytes.
    pub open spec fn encoded_view(&self) -> PacketView {
        PacketView {
            typ: self.typ,
            flags: self.flags.bits,
            target: self.target.0,
            data: self.data.render(),
        }
    }

    /// The frame that carries this packet, its data rendered to bytes.
    pub fn encoded_frame(&self) -> (r: Vec<u8>)
        ensures
            r@ == frame_of(self.encoded_view()),
    {
        self.encoded().frame_bytes()
    }

    /// The same packet with its data rendered to raw bytes.
    pub fn encoded(&self) -> (r: Packet<Raw>)
        ensures
            r.typ == self.typ,
            r.flags == self.flags,
            r.target == self.target,
            raw_bytes(r.data) == self.data.render(),
    {
        let d = self.data.data();
        self.with_data(d)
    }
}

impl Packet<Raw> {
    /// The frame that carries this packet, checksum included.
    pub fn frame_bytes(&self) -> (r: Vec<u8>)
        ensures
            r@ == frame_of(self@),
    {
        let mut out = DigesterOutput::new();
        let data = raw_as_slice(&self.data);
        let header: [u8; 4] = [self.target.0, self.typ.code(), data.len() as u8, self.flags.bits];
        out.write_data(header.as_slice());
        out.write_data(data);
        assert(out.output@ =~= body_of(self@));
        out.write_checksum();
        out.output
    }

    /// Read a packet from exactly one frame. Any malformed frame, including an
    /// unknown type, unknown flag bits, a payload longer than `PACKET_LEN`,
    /// a length that does not match, or a checksum mismatch, is a parse error.
    pub fn read_raw(s: &[u8]) -> (r: Result<Packet<Raw>, Error>)
        ensures
            r is Ok <==> frame_wellformed(s@),
            r is Err ==> r == Err::<Packet<Raw>, Error>(Error::ParseError),
            r matches Ok(p) ==> p@ == parse_frame(s@),
    {
        let mut input = DigesterInput::new(s);
        proof {
            assert(s@.take(0) =~= Seq::<u8>::empty());
        }
        let target = input.read()?;
        proof { lemma_step(s@, 0); }
        let code = input.read()?;
        proof { lemma_step(s@, 1); }
        let typ = PacketType::try_from(code)?;
        let len = input.read()?;
        proof { lemma_step(s@, 2); }
        let fb = input.read()?;
        proof { lemma_step(s@, 3); }
        if len as usize > PACKET_LEN {
            return Err(Error::ParseError);
        }
        let flags = match Flags::from_bits(fb) {
            Some(f) => f,
            None => {
                return Err(Error::ParseError);
            },
        };
        let data = input.read_data(len as usize)?;
        let ghost digested = input.pos;
        input.read_checksum()?;
        if input.pos != s.len() {
            return Err(Error::ParseError);
        }
        assert(s@.len() - 4 == digested);
        let raw = match raw_from_slice(data.as_slice()) {
            Ok(v) => v,
            Err(_) => {
                return Err(Error::ParseError);
            },
        };
        let p = Packet { typ, flags, target: Addr(target), data: raw };
        assert(p@ == parse_frame(s@));
        Ok(p)
    }
}

/// Decoding the frame of a packet gives the packet back, for every packet type,
/// flag combination, address and payload that fits.
pub proof fn lemma_round_trip(p: PacketView)
    requires
        packet_valid(p),
    ensures
        frame_wellformed(frame_of(p)),
        parse_frame(frame_of(p)) == p,
{
    let body = body_of(p);
    let s = frame_of(p);
    let n = s.len();
    assert(n == p.data.len() + FRAME_OVERHEAD);
    assert(s.take(n - 4) =~= body);
    crate::digest::lemma_le_round_trip(crc_of(body));
    assert(s.subrange(HEADER_LEN as int, n - CHECKSUM_LEN) =~= p.data);
    match p.typ {
        PacketType::Command => {},
        PacketType::MidiEvent => {},
        PacketType::Raw => {},
    }
}

/// A frame whose type code is not one of the packet types, or whose flags set
/// an unknown bit, is never well formed, so it decodes to a parse error.
pub proof fn lemma_unknown_code_rejected(s: Seq<u8>)
    requires
        s.len() >= HEADER_LEN,
        type_of_code(s[1]) is None || !flags_known(s[3]),
    ensures
        !frame_wellformed(s),
{
}

/// Reading one more byte of `s` folds it into the digest of what came before.
proof fn lemma_step(s: Seq<u8>, i: int)
    requires
        0 <= i < s.len(),
    ensures
        crc_of(s.take(i + 1)) == crate::digest::crc32_step(crc_of(s.take(i)), s[i]),
{
    lemma_crc_of_push(s.take(i), s[i]);
    assert(s.take(i + 1) =~= s.take(i).push(s[i]));
}

} // verus!
