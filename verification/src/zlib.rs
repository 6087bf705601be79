//! Incremental zlib inflation over a bounded input slice.
//!
//! A [`ZlibReader`] borrows a persistent inflater, feeds it one rectangle's
//! compressed bytes, and hands out inflated bytes on demand, together with
//! an 8-bit-buffered bit reader. Giving the inflater back with
//! [`ZlibReader::into_inner`] checks that the whole input was consumed;
//! leftover bytes are a fatal error.

use vstd::prelude::*;
use crate::error::VncError;
use crate::wire::sub_bytes;

verus! {

/// Declares `flate2::Decompress`, the stateful zlib inflater, so that it
/// can stand in fields and signatures; its inside stays opaque.
#[verifier::external_type_specification]
#[verifier::external_body]
pub struct ExDecompress(flate2::Decompress);

/// What one inflater call reported.
enum InflateStatus {
    /// Some progress is possible or was made.
    Progress,
    /// Neither input can be consumed nor output produced.
    Stalled,
    /// The zlib stream ended; the protocol's streams never end, so this
    /// is treated as corrupt data.
    StreamEnd,
}

/// Relies on `flate2::Decompress::new`: a fresh zlib inflater expecting a
/// zlib header.
#[verifier::external_body]
pub fn inflater_new() -> flate2::Decompress {
    flate2::Decompress::new(true)
}

/// Relies on `flate2::Decompress::reset`: returns the inflater to its
/// initial state, expecting a zlib header again.
#[verifier::external_body]
pub(crate) fn inflater_reset(d: &mut flate2::Decompress) {
    d.reset(true)
}

/// Relies on `flate2::Decompress::total_in`: the running count of consumed
/// input bytes.
#[verifier::external_body]
fn inflater_total_in(d: &flate2::Decompress) -> u64 {
    d.total_in()
}

/// Relies on `flate2::Decompress::total_out`: the running count of produced
/// output bytes.
#[verifier::external_body]
fn inflater_total_out(d: &flate2::Decompress) -> u64 {
    d.total_out()
}

/// Relies on `flate2::Decompress::decompress`: inflates from `input` into
/// `output`, consuming as much input and writing as much output as it can.
/// It writes through a slice of `output`, so the length cannot change.
#[verifier::external_body]
fn inflate_call(d: &mut flate2::Decompress, input: &Vec<u8>, output: &mut Vec<u8>) -> (r: Result<
    InflateStatus,
    VncError,
>)
    ensures
        final(output)@.len() == old(output)@.len(),
        r is Err ==> r->Err_0 is InvalidImageData,
{
    match d.decompress(input.as_slice(), output.as_mut_slice(), flate2::FlushDecompress::None) {
        Ok(flate2::Status::Ok) => Ok(InflateStatus::Progress),
        Ok(flate2::Status::BufError) => Ok(InflateStatus::Stalled),
        Ok(flate2::Status::StreamEnd) => Ok(InflateStatus::StreamEnd),
        Err(_) => Err(VncError::InvalidImageData),
    }
}

/// The `count`-bit field of a buffered byte that starts `shift` bits above
/// the least significant bit.
pub open spec fn bits_of(b: u8, shift: int, count: int) -> u8 {
    ((((b as u32) >> (shift as u32)) as u8) & ((((1u32 << (count as u32)) - 1)) as u8))
}

/// An inflater bound to one rectangle's compressed bytes.
pub struct ZlibReader {
    inflater: flate2::Decompress,
    input: Vec<u8>,
    pos: usize,
    bit_buffer: u8,
    bit_position: usize,
}

impl ZlibReader {
    /// The compressed input this reader was given.
    pub closed spec fn input_seq(&self) -> Seq<u8> {
        self.input@
    }

    /// How many input bytes the inflater has consumed so far.
    pub closed spec fn consumed(&self) -> int {
        self.pos as int
    }

    /// The byte the bit reader currently draws bits from.
    pub closed spec fn spec_bit_buffer(&self) -> u8 {
        self.bit_buffer
    }

    /// How many bits of the buffered byte were already handed out.
    pub closed spec fn spec_bit_position(&self) -> int {
        self.bit_position as int
    }

    /// The reader's internal consistency.
    pub open spec fn wf(&self) -> bool {
        0 <= self.consumed() <= self.input_seq().len() && 0 <= self.spec_bit_position() <= 8
    }

    /// Whether the inflater has consumed the whole input.
    pub open spec fn fully_consumed(&self) -> bool {
        self.consumed() == self.input_seq().len()
    }

    /// Binds an inflater to one rectangle's compressed bytes. The bit
    /// buffer starts empty.
    pub fn new(inflater: flate2::Decompress, input: Vec<u8>) -> (r: ZlibReader)
        ensures
            r.wf(),
            r.input_seq() == input@,
            r.consumed() == 0,
            r.spec_bit_position() == 8,
    {
        ZlibReader { inflater, input, pos: 0, bit_buffer: 0, bit_position: 8 }
    }

    /// Gives the inflater back, exactly when the whole input was consumed;
    /// leftover bytes are a fatal `InvalidImageData`.
    pub fn into_inner(self) -> (r: Result<flate2::Decompress, VncError>)
        ensures
            r is Ok <==> self.fully_consumed(),
            r is Err ==> r->Err_0 is InvalidImageData,
    {
        if self.pos == self.input.len() {
            Ok(self.inflater)
        } else {
            Err(VncError::InvalidImageData)
        }
    }

    /// Inflates exactly `n` bytes. Input that stalls or ends the zlib
    /// stream before `n` bytes were produced is a fatal `InvalidImageData`.
    pub fn read_exact_vec(&mut self, n: usize) -> (r: Result<Vec<u8>, VncError>)
        requires
            old(self).wf(),
        ensures
            final(self).wf(),
            final(self).input_seq() == old(self).input_seq(),
            old(self).consumed() <= final(self).consumed(),
            final(self).spec_bit_buffer() == old(self).spec_bit_buffer(),
            final(self).spec_bit_position() == old(self).spec_bit_position(),
            r is Ok ==> r->Ok_0@.len() == n,
            r is Err ==> r->Err_0 is InvalidImageData,
    {
        let mut out: Vec<u8> = Vec::new();
        loop
            invariant
                self.wf(),
                self.input_seq() == old(self).input_seq(),
                old(self).consumed() <= self.consumed(),
                self.spec_bit_buffer() == old(self).spec_bit_buffer(),
                self.spec_bit_position() == old(self).spec_bit_position(),
                out@.len() <= n,
            decreases n - out@.len() + (self.input_seq().len() - self.consumed()),
        {
            if out.len() == n {
                return Ok(out);
            }
            let want: usize = n - out.len();
            let mut chunk: Vec<u8> = vec![0u8; want];
            let remainder = sub_bytes(&self.input, self.pos, self.input.len());
            let in_before = inflater_total_in(&self.inflater);
            let out_before = inflater_total_out(&self.inflater);
            let status = match inflate_call(&mut self.inflater, &remainder, &mut chunk) {
                Ok(s) => s,
                Err(e) => {
                    return Err(e);
                },
            };
            let in_after = inflater_total_in(&self.inflater);
            let out_after = inflater_total_out(&self.inflater);
            if in_after < in_before || out_after < out_before {
                return Err(VncError::InvalidImageData);
            }
            let consumed_now = in_after - in_before;
            let produced_now = out_after - out_before;
            if consumed_now > (remainder.len() as u64) || produced_now > (chunk.len() as u64) {
                return Err(VncError::InvalidImageData);
            }
            self.pos = self.pos + (consumed_now as usize);
            chunk.truncate(produced_now as usize);
            out.append(&mut chunk);
            if matches!(status, InflateStatus::StreamEnd) {
                return Err(VncError::InvalidImageData);
            }
            if consumed_now == 0 && produced_now == 0 {
                return Err(VncError::InvalidImageData);
            }
        }
    }

    /// Inflates up to `max` bytes: whatever one inflater call yields. An
    /// empty result means the stream can make no more progress.
    pub fn read_some(&mut self, max: usize) -> (r: Result<Vec<u8>, VncError>)
        requires
            old(self).wf(),
            max > 0,
        ensures
            final(self).wf(),
            final(self).input_seq() == old(self).input_seq(),
            old(self).consumed() <= final(self).consumed(),
            final(self).spec_bit_buffer() == old(self).spec_bit_buffer(),
            final(self).spec_bit_position() == old(self).spec_bit_position(),
            r is Ok ==> r->Ok_0@.len() <= max,
            r is Err ==> r->Err_0 is InvalidImageData,
    {
        let mut chunk: Vec<u8> = vec![0u8; max];
        let remainder = sub_bytes(&self.input, self.pos, self.input.len());
        let in_before = inflater_total_in(&self.inflater);
        let out_before = inflater_total_out(&self.inflater);
        let status = match inflate_call(&mut self.inflater, &remainder, &mut chunk) {
            Ok(s) => s,
            Err(e) => {
                return Err(e);
            },
        };
        let in_after = inflater_total_in(&self.inflater);
        let out_after = inflater_total_out(&self.inflater);
        if in_after < in_before || out_after < out_before {
            return Err(VncError::InvalidImageData);
        }
        let consumed_now = in_after - in_before;
        let produced_now = out_after - out_before;
        if consumed_now > (remainder.len() as u64) || produced_now > (chunk.len() as u64) {
            return Err(VncError::InvalidImageData);
        }
        if matches!(status, InflateStatus::StreamEnd) {
            return Err(VncError::InvalidImageData);
        }
        self.pos = self.pos + (consumed_now as usize);
        chunk.truncate(produced_now as usize);
        Ok(chunk)
    }

    /// Inflates one byte.
    pub fn read_u8(&mut self) -> (r: Result<u8, VncError>)
        requires
            old(self).wf(),
        ensures
            final(self).wf(),
            final(self).input_seq() == old(self).input_seq(),
            old(self).consumed() <= final(self).consumed(),
            final(self).spec_bit_buffer() == old(self).spec_bit_buffer(),
            final(self).spec_bit_position() == old(self).spec_bit_position(),
    {
        let v = self.read_exact_vec(1)?;
        Ok(v[0])
    }

    /// Hands out the next `count` bits of the buffered byte, most
    /// significant bits first, refilling the buffer from the inflated
    /// stream when it is empty. A read that would straddle two bytes is a
    /// fatal `InvalidImageData`.
    pub fn read_bits(&mut self, count: usize) -> (r: Result<u8, VncError>)
        requires
            old(self).wf(),
            1 <= count <= 8,
        ensures
            final(self).wf(),
            final(self).input_seq() == old(self).input_seq(),
            old(self).consumed() <= final(self).consumed(),
            r is Ok ==> final(self).spec_bit_position() == (if old(self).spec_bit_position() == 8 {
                count as int
            } else {
                old(self).spec_bit_position() + count
            }),
            r is Ok ==> r->Ok_0 == bits_of(
                final(self).spec_bit_buffer(),
                8 - final(self).spec_bit_position(),
                count as int,
            ),
            r is Ok && old(self).spec_bit_position() != 8 ==> final(self).spec_bit_buffer() == old(
                self
            ).spec_bit_buffer(),
    {
        if self.bit_position == 8 {
            let b = self.read_u8()?;
            self.bit_buffer = b;
            self.bit_position = 0;
        }
        if self.bit_position + count <= 8 {
            let shift: usize = 8 - (count + self.bit_position);
            let c: u32 = count as u32;
            proof {
                assert(1 <= c && c <= 8 ==> (1u32 << c) >= 2) by (bit_vector);
            }
            let mask: u8 = (((1u32 << c) - 1) as u8);
            let result: u8 = (((self.bit_buffer as u32) >> (shift as u32)) as u8) & mask;
            self.bit_position = self.bit_position + count;
            Ok(result)
        } else {
            Err(VncError::InvalidImageData)
        }
    }

    /// Discards what is left of the buffered byte, so that the next bit
    /// read starts at a byte boundary.
    pub fn align(&mut self)
        requires
            old(self).wf(),
        ensures
            final(self).wf(),
            final(self).input_seq() == old(self).input_seq(),
            final(self).consumed() == old(self).consumed(),
            final(self).spec_bit_position() == 8,
    {
        self.bit_position = 8;
    }
}

} // verus!
