//! The digesting transform: bytes moved through it are folded into a running
//! CRC-32 (IEEE polynomial), which is emitted or checked at the end of a frame.

use vstd::prelude::*;

use crate::frame::Error;

verus! {

/// Number of checksum bytes that close a frame.
pub const CHECKSUM_LEN: usize = 4;

/// The running CRC-32/IEEE value after folding one more byte into `value`.
pub uninterp spec fn crc32_step(value: u32, byte: u8) -> u32;

/// Relies on crc::crc32::update with the IEEE table: the running value after
/// one more byte, which depends on the two arguments alone.
#[verifier::external_body]
fn crc32_update(value: u32, byte: u8) -> (r: u32)
    ensures
        r == crc32_step(value, byte),
{
    crc::crc32::update(value, &crc::crc32::IEEE_TABLE, &[byte])
}

/// The CRC-32/IEEE checksum of `s`: the running value, started at zero, folded
/// over the bytes in order.
pub open spec fn crc_of(s: Seq<u8>) -> u32
    decreases s.len(),
{
    if s.len() == 0 {
        0
    } else {
        crc32_step(crc_of(s.drop_last()), s.last())
    }
}

/// The four bytes of `x`, least significant first.
pub open spec fn le_bytes(x: u32) -> Seq<u8> {
    seq![(x & 0xff) as u8, ((x >> 8u32) & 0xff) as u8, ((x >> 16u32) & 0xff) as u8, (x >> 24u32) as u8]
}

/// The value whose bytes, least significant first, are `b0` to `b3`.
pub open spec fn le_value(b0: u8, b1: u8, b2: u8, b3: u8) -> u32 {
    (b0 as u32) | ((b1 as u32) << 8u32) | ((b2 as u32) << 16u32) | ((b3 as u32) << 24u32)
}

/// Folding one more byte into the checksum of `s` gives the checksum of `s`
/// with that byte appended.
pub proof fn lemma_crc_of_push(s: Seq<u8>, b: u8)
    ensures
        crc_of(s.push(b)) == crc32_step(crc_of(s), b),
{
    assert(s.push(b).drop_last() =~= s);
}

/// Reading back the little-endian bytes of a value gives the value.
pub proof fn lemma_le_round_trip(x: u32)
    ensures
        le_value(le_bytes(x)[0], le_bytes(x)[1], le_bytes(x)[2], le_bytes(x)[3]) == x,
{
    let b0 = (x & 0xff) as u8;
    let b1 = ((x >> 8u32) & 0xff) as u8;
    let b2 = ((x >> 16u32) & 0xff) as u8;
    let b3 = (x >> 24u32) as u8;
    assert((b0 as u32) | ((b1 as u32) << 8u32) | ((b2 as u32) << 16u32) | ((b3 as u32) << 24u32)
        == x) by (bit_vector)
        requires
            b0 == (x & 0xff) as u8,
            b1 == ((x >> 8u32) & 0xff) as u8,
            b2 == ((x >> 16u32) & 0xff) as u8,
            b3 == (x >> 24u32) as u8,
    ;
}

/// Collects the bytes of a frame and digests them as they are written.
pub struct DigesterOutput {
    pub output: Vec<u8>,
    pub digest: u32,
}

impl DigesterOutput {
    pub fn new() -> (r: Self)
        ensures
            r.output@ == Seq::<u8>::empty(),
            r.digest == crc_of(Seq::<u8>::empty()),
    {
        DigesterOutput { output: Vec::new(), digest: 0 }
    }

    /// Write a single byte and fold it into the digest.
    pub fn write(&mut self, d: u8)
        ensures
            final(self).output@ == old(self).output@.push(d),
            final(self).digest == crc32_step(old(self).digest, d),
    {
        self.output.push(d);
        self.digest = crc32_update(self.digest, d);
    }

    /// Write the bytes of a buffer in order, digesting each.
    pub fn write_data(&mut self, d: &[u8])
        requires
            old(self).digest == crc_of(old(self).output@),
        ensures
            final(self).output@ == old(self).output@ + d@,
            final(self).digest == crc_of(final(self).output@),
    {
        let ghost start = self.output@;
        let mut i: usize = 0;
        while i < d.len()
            invariant
                i <= d@.len(),
                self.output@ == start + d@.take(i as int),
                self.digest == crc_of(self.output@),
            decreases d@.len() - i,
        {
            proof {
                lemma_crc_of_push(self.output@, d@[i as int]);
                assert(start + d@.take(i + 1) =~= (start + d@.take(i as int)).push(d@[i as int]));
            }
            self.write(d[i]);
            i = i + 1;
        }
        assert(d@.take(d@.len() as int) =~= d@);
    }

    /// Write the digest, least significant byte first, without digesting it,
    /// and return it.
    pub fn write_checksum(&mut self) -> (r: u32)
        ensures
            r == old(self).digest,
            final(self).digest == old(self).digest,
            final(self).output@ == old(self).output@ + le_bytes(r),
    {
        let c = self.digest;
        self.output.push((c & 0xff) as u8);
        self.output.push(((c >> 8u32) & 0xff) as u8);
        self.output.push(((c >> 16u32) & 0xff) as u8);
        self.output.push((c >> 24u32) as u8);
        assert(self.output@ =~= old(self).output@ + le_bytes(c));
        c
    }
}

/// Reads the bytes of a frame from a buffer and digests them as they are read.
pub struct DigesterInput<'a> {
    pub input: &'a [u8],
    pub pos: usize,
    pub digest: u32,
}

impl<'a> DigesterInput<'a> {
    pub fn new(input: &'a [u8]) -> (r: Self)
        ensures
            r.input@ == input@,
            r.pos == 0,
            r.digest == crc_of(Seq::<u8>::empty()),
    {
        DigesterInput { input, pos: 0, digest: 0 }
    }

    /// Read a single byte and fold it into the digest; fails when the buffer
    /// is used up.
    pub fn read(&mut self) -> (r: Result<u8, Error>)
        requires
            old(self).pos <= old(self).input@.len(),
        ensures
            final(self).input@ == old(self).input@,
            old(self).pos < old(self).input@.len() ==> {
                &&& r == Ok::<u8, Error>(old(self).input@[old(self).pos as int])
                &&& final(self).pos == old(self).pos + 1
                &&& final(self).digest == crc32_step(old(self).digest, r->Ok_0)
            },
            old(self).pos == old(self).input@.len() ==> {
                &&& r == Err::<u8, Error>(Error::ParseError)
                &&& final(self).pos == old(self).pos
                &&& final(self).digest == old(self).digest
            },
    {
        if self.pos < self.input.len() {
            let d = self.input[self.pos];
            self.pos = self.pos + 1;
            self.digest = crc32_update(self.digest, d);
            Ok(d)
        } else {
            Err(Error::ParseError)
        }
    }

    /// Read `len` bytes, digesting each; fails when fewer are left.
    pub fn read_data(&mut self, len: usize) -> (r: Result<Vec<u8>, Error>)
        requires
            old(self).pos <= old(self).input@.len(),
            old(self).digest == crc_of(old(self).input@.take(old(self).pos as int)),
        ensures
            final(self).input@ == old(self).input@,
            old(self).pos + len <= old(self).input@.len() <==> r is Ok,
            r is Err ==> r == Err::<Vec<u8>, Error>(Error::ParseError),
            r matches Ok(v) ==> {
                &&& v@ == old(self).input@.subrange(old(self).pos as int, old(self).pos + len)
                &&& final(self).pos == old(self).pos + len
                &&& final(self).digest == crc_of(final(self).input@.take(final(self).pos as int))
            },
    {
        if len > self.input.len() - self.pos {
            return Err(Error::ParseError);
        }
        let ghost s = self.input@;
        let ghost start = self.pos;
        let mut v: Vec<u8> = Vec::new();
        let mut i: usize = 0;
        while i < len
            invariant
                i <= len,
                start + len <= s.len(),
                self.input@ == s,
                self.pos == start + i,
                self.digest == crc_of(s.take(self.pos as int)),
                v@ == s.subrange(start as int, start + i),
            decreases len - i,
        {
            proof {
                lemma_crc_of_push(s.take(self.pos as int), s[self.pos as int]);
                assert(s.take(self.pos + 1) =~= s.take(self.pos as int).push(s[self.pos as int]));
            }
            let b = self.read();
            match b {
                Ok(b) => {
                    v.push(b);
                },
                Err(e) => {
                    return Err(e);
                },
            }
            assert(v@ =~= s.subrange(start as int, start + i + 1));
            i = i + 1;
        }
        Ok(v)
    }

    /// Read the four checksum bytes, which are not digested, and compare them,
    /// least significant first, with the digest.
    pub fn read_checksum(&mut self) -> (r: Result<(), Error>)
        requires
            old(self).pos <= old(self).input@.len(),
        ensures
            final(self).input@ == old(self).input@,
            r is Ok <==> {
                let s = old(self).input@;
                let p = old(self).pos as int;
                &&& p + CHECKSUM_LEN <= s.len()
                &&& le_value(s[p], s[p + 1], s[p + 2], s[p + 3]) == old(self).digest
            },
            final(self).digest == old(self).digest,
            old(self).pos + CHECKSUM_LEN <= old(self).input@.len() ==> final(self).pos == old(self).pos
                + CHECKSUM_LEN,
            old(self).pos + CHECKSUM_LEN > old(self).input@.len() ==> final(self).pos == old(self).pos,
            r is Err ==> r == Err::<(), Error>(Error::ParseError),
    {
        if self.input.len() - self.pos < CHECKSUM_LEN {
            return Err(Error::ParseError);
        }
        let p = self.pos;
        let b0 = self.input[p];
        let b1 = self.input[p + 1];
        let b2 = self.input[p + 2];
        let b3 = self.input[p + 3];
        self.pos = p + 4;
        let packet_checksum: u32 = (b0 as u32) | ((b1 as u32) << 8u32) | ((b2 as u32) << 16u32)
            | ((b3 as u32) << 24u32);
        if packet_checksum == self.digest {
            Ok(())
        } else {
            Err(Error::ParseError)
        }
    }
}

} // verus!
