use vstd::prelude::*;
use crate::messages::codec_error::CodecError;
use crate::messages::endianness::Endianness;

verus! {

/// The RepresentationIdentifier is used to identify the data representation
/// used for the serialized payload that follows it.
#[allow(non_camel_case_types)]
#[derive(Clone, Copy, Debug, PartialEq, Eq, Structural)]
pub enum RepresentationIdentifier {
    CDR_BE,
    CDR_LE,
    PL_CDR_BE,
    PL_CDR_LE,
    CDR2_BE,
    CDR2_LE,
    PL_CDR2_BE,
    PL_CDR2_LE,
    D_CDR_BE,
    D_CDR_LE,
    XML,
}

impl RepresentationIdentifier {
    /// The two-byte wire value of each identifier.
    pub open spec fn spec_bytes(self) -> Seq<u8> {
        match self {
            RepresentationIdentifier::CDR_BE => seq![0x00u8, 0x00u8],
            RepresentationIdentifier::CDR_LE => seq![0x00u8, 0x01u8],
            RepresentationIdentifier::PL_CDR_BE => seq![0x00u8, 0x02u8],
            RepresentationIdentifier::PL_CDR_LE => seq![0x00u8, 0x03u8],
            RepresentationIdentifier::CDR2_BE => seq![0x00u8, 0x10u8],
            RepresentationIdentifier::CDR2_LE => seq![0x00u8, 0x11u8],
            RepresentationIdentifier::PL_CDR2_BE => seq![0x00u8, 0x12u8],
            RepresentationIdentifier::PL_CDR2_LE => seq![0x00u8, 0x13u8],
            RepresentationIdentifier::D_CDR_BE => seq![0x00u8, 0x14u8],
            RepresentationIdentifier::D_CDR_LE => seq![0x00u8, 0x15u8],
            RepresentationIdentifier::XML => seq![0x00u8, 0x04u8],
        }
    }

    /// The payload behind this identifier is encoded as a parameter list.
    pub open spec fn spec_is_parameter_list(self) -> bool {
        match self {
            RepresentationIdentifier::PL_CDR_BE
            | RepresentationIdentifier::PL_CDR_LE
            | RepresentationIdentifier::PL_CDR2_BE
            | RepresentationIdentifier::PL_CDR2_LE => true,
            _ => false,
        }
    }

    /// The byte order the identifier selects for the payload. The standard
    /// gives XML no byte order; the target's native order is taken to be
    /// little-endian here.
    pub open spec fn spec_endianness(self) -> Endianness {
        match self {
            RepresentationIdentifier::CDR_BE
            | RepresentationIdentifier::PL_CDR_BE
            | RepresentationIdentifier::CDR2_BE
            | RepresentationIdentifier::PL_CDR2_BE
            | RepresentationIdentifier::D_CDR_BE => Endianness::BigEndian,
            _ => Endianness::LittleEndian,
        }
    }

    pub fn is_parameter_list(&self) -> (r: bool)
        ensures
            r == self.spec_is_parameter_list(),
    {
        match self {
            RepresentationIdentifier::PL_CDR_BE
            | RepresentationIdentifier::PL_CDR_LE
            | RepresentationIdentifier::PL_CDR2_BE
            | RepresentationIdentifier::PL_CDR2_LE => true,
            _ => false,
        }
    }

    pub fn endianness(&self) -> (e: Endianness)
        ensures
            e == self.spec_endianness(),
    {
        match self {
            RepresentationIdentifier::CDR_BE
            | RepresentationIdentifier::PL_CDR_BE
            | RepresentationIdentifier::CDR2_BE
            | RepresentationIdentifier::PL_CDR2_BE
            | RepresentationIdentifier::D_CDR_BE => Endianness::BigEndian,

            RepresentationIdentifier::CDR_LE
            | RepresentationIdentifier::PL_CDR_LE
            | RepresentationIdentifier::CDR2_LE
            | RepresentationIdentifier::PL_CDR2_LE
            | RepresentationIdentifier::D_CDR_LE => Endianness::LittleEndian,

            RepresentationIdentifier::XML => Endianness::LittleEndian,
        }
    }

    /// The identifier whose wire value is `value`, if any.
    pub fn try_from_bytes(value: [u8; 2]) -> (r: Result<RepresentationIdentifier, ()>)
        ensures
            match r {
                Ok(v) => v.spec_bytes() == value@,
                Err(_) => forall|v: RepresentationIdentifier| v.spec_bytes() != value@,
            },
    {
        let r: Result<RepresentationIdentifier, ()> = if value[0] != 0x00 {
            Err(())
        } else {
            match value[1] {
                0x00 => Ok(RepresentationIdentifier::CDR_BE),
                0x01 => Ok(RepresentationIdentifier::CDR_LE),
                0x02 => Ok(RepresentationIdentifier::PL_CDR_BE),
                0x03 => Ok(RepresentationIdentifier::PL_CDR_LE),
                0x10 => Ok(RepresentationIdentifier::CDR2_BE),
                0x11 => Ok(RepresentationIdentifier::CDR2_LE),
                0x12 => Ok(RepresentationIdentifier::PL_CDR2_BE),
                0x13 => Ok(RepresentationIdentifier::PL_CDR2_LE),
                0x14 => Ok(RepresentationIdentifier::D_CDR_BE),
                0x15 => Ok(RepresentationIdentifier::D_CDR_LE),
                0x04 => Ok(RepresentationIdentifier::XML),
                _ => Err(()),
            }
        };
        proof {
            match r {
                Ok(v) => {
                    assert(v.spec_bytes() =~= value@);
                },
                Err(_) => {
                    assert(value@.len() == 2);
                    assert forall|v: RepresentationIdentifier| v.spec_bytes() != value@ by {
                        assert(v.spec_bytes()[0] == 0x00 && v.spec_bytes().len() == 2);
                        if v.spec_bytes() == value@ {
                            assert(value@[0] == 0x00 && value@[1] == v.spec_bytes()[1]);
                        }
                    }
                },
            }
        }
        r
    }

    /// The two-byte wire value of this identifier.
    pub fn to_bytes(&self) -> (b: [u8; 2])
        ensures
            b@ == self.spec_bytes(),
    {
        let b: [u8; 2] = match self {
            RepresentationIdentifier::CDR_BE => [0x00, 0x00],
            RepresentationIdentifier::CDR_LE => [0x00, 0x01],
            RepresentationIdentifier::PL_CDR_BE => [0x00, 0x02],
            RepresentationIdentifier::PL_CDR_LE => [0x00, 0x03],
            RepresentationIdentifier::CDR2_BE => [0x00, 0x10],
            RepresentationIdentifier::CDR2_LE => [0x00, 0x11],
            RepresentationIdentifier::PL_CDR2_BE => [0x00, 0x12],
            RepresentationIdentifier::PL_CDR2_LE => [0x00, 0x13],
            RepresentationIdentifier::D_CDR_BE => [0x00, 0x14],
            RepresentationIdentifier::D_CDR_LE => [0x00, 0x15],
            RepresentationIdentifier::XML => [0x00, 0x04],
        };
        proof {
            assert(b@ =~= self.spec_bytes());
        }
        b
    }

    /// Read the identifier whose wire value starts at `pos`.
    pub fn read_from(buf: &[u8], pos: usize) -> (r: Result<
        (RepresentationIdentifier, usize),
        CodecError,
    >)
        requires
            pos <= buf@.len(),
        ensures
            match r {
                Ok((v, p)) => {
                    &&& pos + 2 <= buf@.len()
                    &&& p == pos + 2
                    &&& v.spec_bytes() == buf@.subrange(pos as int, pos as int + 2)
                },
                Err(CodecError::UnexpectedEndOfInput) => pos + 2 > buf@.len(),
                Err(CodecError::UnknownRepresentationIdentifier) => {
                    &&& pos + 2 <= buf@.len()
                    &&& forall|v: RepresentationIdentifier|
                        v.spec_bytes() != buf@.subrange(pos as int, pos as int + 2)
                },
            },
    {
        if buf.len() - pos < 2 {
            return Err(CodecError::UnexpectedEndOfInput);
        }
        let value = [buf[pos], buf[pos + 1]];
        proof {
            assert(value@ =~= buf@.subrange(pos as int, pos as int + 2));
        }
        match Self::try_from_bytes(value) {
            Ok(v) => Ok((v, pos + 2)),
            Err(_) => Err(CodecError::UnknownRepresentationIdentifier),
        }
    }

    /// Append the two-byte wire value to `out`.
    pub fn write_to(&self, out: &mut Vec<u8>)
        ensures
            final(out)@ == old(out)@ + self.spec_bytes(),
    {
        let b = self.to_bytes();
        out.push(b[0]);
        out.push(b[1]);
        proof {
            assert(out@ =~= old(out)@ + self.spec_bytes());
        }
    }
}

/// No two identifiers share a wire value: the second byte alone tells
/// them all apart.
pub proof fn lemma_repr_bytes_injective(a: RepresentationIdentifier, b: RepresentationIdentifier)
    requires
        a.spec_bytes() == b.spec_bytes(),
    ensures
        a == b,
{
    assert(a.spec_bytes()[1] == b.spec_bytes()[1]);
}

impl Default for RepresentationIdentifier {
    /// The standard fixes no default; little-endian plain CDR is used here.
    fn default() -> (r: RepresentationIdentifier)
        ensures
            r == RepresentationIdentifier::CDR_LE,
    {
        RepresentationIdentifier::CDR_LE
    }
}

} // verus!
