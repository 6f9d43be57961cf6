use vstd::prelude::*;
use crate::messages::codec_error::CodecError;
use crate::messages::endianness::Endianness;
use crate::messages::endianness::read_i32;
use crate::messages::endianness::read_u32;
use crate::messages::endianness::spec_i32_bytes;
use crate::messages::endianness::spec_u32_bytes;
use crate::messages::endianness::write_i32;
use crate::messages::endianness::write_u32;

verus! {

/// A 64-bit sequence number, carried as a signed high half followed by an
/// unsigned low half, each in the submessage's byte order.
#[allow(non_camel_case_types)]
#[derive(Clone, Copy, Debug, PartialEq, Eq, Structural)]
pub struct SequenceNumber_t {
    pub high: i32,
    pub low: u32,
}

impl SequenceNumber_t {
    /// The numeric value: `high * 2^32 + low`.
    pub open spec fn spec_value(self) -> int {
        self.high * 0x1_0000_0000 + self.low
    }

    /// The eight-byte wire form in byte order `e`.
    pub open spec fn spec_bytes(self, e: Endianness) -> Seq<u8> {
        spec_i32_bytes(self.high, e) + spec_u32_bytes(self.low, e)
    }

    /// Read the sequence number whose wire form starts at `pos`.
    pub fn read_from(buf: &[u8], pos: usize, e: Endianness) -> (r: Result<
        (SequenceNumber_t, usize),
        CodecError,
    >)
        requires
            pos <= buf@.len(),
        ensures
            match r {
                Ok((v, p)) => {
                    &&& pos + 8 <= buf@.len()
                    &&& p == pos + 8
                    &&& v.spec_bytes(e) == buf@.subrange(pos as int, pos as int + 8)
                },
                Err(CodecError::UnexpectedEndOfInput) => pos + 8 > buf@.len(),
                Err(_) => false,
            },
    {
        if buf.len() - pos < 8 {
            return Err(CodecError::UnexpectedEndOfInput);
        }
        let high = read_i32(buf, pos, e);
        let low = read_u32(buf, pos + 4, e);
        let v = SequenceNumber_t { high, low };
        proof {
            assert(v.spec_bytes(e) =~= buf@.subrange(pos as int, pos as int + 8));
        }
        Ok((v, pos + 8))
    }

    /// Append the eight-byte wire form to `out`.
    pub fn write_to(&self, out: &mut Vec<u8>, e: Endianness)
        ensures
            final(out)@ == old(out)@ + self.spec_bytes(e),
    {
        write_i32(out, self.high, e);
        write_u32(out, self.low, e);
        proof {
            assert(out@ =~= old(out)@ + self.spec_bytes(e));
        }
    }
}

} // verus!
