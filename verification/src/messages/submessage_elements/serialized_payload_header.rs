use vstd::prelude::*;
use crate::messages::codec_error::CodecError;
use crate::messages::submessage_elements::representation_identifier::RepresentationIdentifier;

verus! {

/// All SerializedPayload shall start with this header. It provides
/// information about the representation of the data that follows: the
/// RepresentationIdentifier selects the representation, and the
/// RepresentationOptions are interpreted in its context.
#[derive(Clone, Copy, Debug, PartialEq, Eq)]
pub struct SerializedPayloadHeader {
    pub representation_identifier: RepresentationIdentifier,
    pub representation_options: [u8; 2],
}

impl SerializedPayloadHeader {
    /// The four-byte wire form: the identifier's value, then the options.
    pub open spec fn spec_bytes(self) -> Seq<u8> {
        self.representation_identifier.spec_bytes() + self.representation_options@
    }

    /// Read the header whose wire form starts at `pos`.
    pub fn read_from(buf: &[u8], pos: usize) -> (r: Result<
        (SerializedPayloadHeader, usize),
        CodecError,
    >)
        requires
            pos <= buf@.len(),
        ensures
            match r {
                Ok((h, p)) => {
                    &&& pos + 4 <= buf@.len()
                    &&& p == pos + 4
                    &&& h.spec_bytes() == buf@.subrange(pos as int, pos as int + 4)
                },
                Err(CodecError::UnexpectedEndOfInput) => pos + 4 > buf@.len(),
                Err(CodecError::UnknownRepresentationIdentifier) => {
                    &&& pos + 4 <= buf@.len()
                    &&& forall|v: RepresentationIdentifier|
                        v.spec_bytes() != buf@.subrange(pos as int, pos as int + 2)
                },
            },
    {
        if buf.len() - pos < 4 {
            return Err(CodecError::UnexpectedEndOfInput);
        }
        let representation_identifier = match RepresentationIdentifier::read_from(buf, pos) {
            Ok((v, _)) => v,
            Err(e) => {
                return Err(e);
            },
        };
        let representation_options = [buf[pos + 2], buf[pos + 3]];
        let h = SerializedPayloadHeader { representation_identifier, representation_options };
        proof {
            assert(h.spec_bytes() =~= buf@.subrange(pos as int, pos as int + 4));
        }
        Ok((h, pos + 4))
    }

    /// Append the four-byte wire form to `out`.
    pub fn write_to(&self, out: &mut Vec<u8>)
        ensures
            final(out)@ == old(out)@ + self.spec_bytes(),
    {
        self.representation_identifier.write_to(out);
        out.push(self.representation_options[0]);
        out.push(self.representation_options[1]);
        proof {
            assert(out@ =~= old(out)@ + self.spec_bytes());
        }
    }
}

impl Default for SerializedPayloadHeader {
    fn default() -> (r: SerializedPayloadHeader)
        ensures
            r.representation_identifier == RepresentationIdentifier::CDR_LE,
            r.representation_options@ == seq![0u8, 0u8],
    {
        let r = SerializedPayloadHeader {
            representation_identifier: RepresentationIdentifier::CDR_LE,
            representation_options: [0x00, 0x00],
        };
        proof {
            assert(r.representation_options@ =~= seq![0u8, 0u8]);
        }
        r
    }
}

} // verus!
