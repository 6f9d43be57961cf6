use vstd::prelude::*;
use crate::messages::endianness::Endianness;

verus! {

/// Identifies the endianness used to encapsulate the Submessage, the
/// presence of optional elements within the Submessage, and possibly
/// modifies the interpretation of the Submessage. There are 8 possible
/// flags. The first flag (bit 0) identifies the endianness used to
/// encapsulate the Submessage. The remaining flags are interpreted
/// differently depending on the kind of Submessage.
#[derive(Clone, Copy, Debug, PartialOrd, PartialEq, Ord, Eq, Structural)]
pub struct SubmessageFlag {
    pub flags: u8,
}

impl SubmessageFlag {
    /// The byte order selected by the endianness flag (bit 0).
    pub open spec fn spec_endianness(self) -> Endianness {
        if self.flags & 0x01 != 0 {
            Endianness::LittleEndian
        } else {
            Endianness::BigEndian
        }
    }

    /// Indicates endianness.
    pub fn endianness_flag(&self) -> (e: Endianness)
        ensures
            e == self.spec_endianness(),
    {
        if self.is_flag_set(0x01) {
            Endianness::LittleEndian
        } else {
            Endianness::BigEndian
        }
    }

    pub fn set_flag(&mut self, mask: u8)
        ensures
            final(self).flags == old(self).flags | mask,
    {
        self.flags = self.flags | mask;
    }

    pub fn clear_flag(&mut self, mask: u8)
        ensures
            final(self).flags == old(self).flags & !mask,
    {
        self.flags = self.flags & !mask;
    }

    pub fn is_flag_set(&self, mask: u8) -> (r: bool)
        ensures
            r == (self.flags & mask != 0),
    {
        self.flags & mask != 0
    }

    /// The one-byte wire form of the flag octet.
    pub open spec fn spec_bytes(self) -> Seq<u8> {
        seq![self.flags]
    }

    /// Read the flag octet at `pos`.
    pub fn read_from(buf: &[u8], pos: usize) -> (r: SubmessageFlag)
        requires
            pos < buf@.len(),
        ensures
            r.spec_bytes() == buf@.subrange(pos as int, pos as int + 1),
    {
        let r = SubmessageFlag { flags: buf[pos] };
        proof {
            assert(r.spec_bytes() =~= buf@.subrange(pos as int, pos as int + 1));
        }
        r
    }

    /// Append the flag octet to `out`.
    pub fn write_to(&self, out: &mut Vec<u8>)
        ensures
            final(out)@ == old(out)@ + self.spec_bytes(),
    {
        out.push(self.flags);
        proof {
            assert(out@ =~= old(out)@ + self.spec_bytes());
        }
    }
}

} // verus!
