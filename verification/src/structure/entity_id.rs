use vstd::prelude::*;
use crate::messages::codec_error::CodecError;

verus! {

/// Identifies an entity within a participant: a three-octet key followed
/// by a one-octet kind, carried on the wire as four plain octets in this
/// order, independent of the submessage's byte order.
#[allow(non_camel_case_types)]
#[derive(Clone, Copy, Debug, PartialEq, Eq)]
pub struct EntityId_t {
    pub entity_key: [u8; 3],
    pub entity_kind: u8,
}

impl EntityId_t {
    /// The four-byte wire form.
    pub open spec fn spec_bytes(self) -> Seq<u8> {
        self.entity_key@ + seq![self.entity_kind]
    }

    /// Read the entity id whose wire form starts at `pos`.
    pub fn read_from(buf: &[u8], pos: usize) -> (r: Result<(EntityId_t, usize), CodecError>)
        requires
            pos <= buf@.len(),
        ensures
            match r {
                Ok((v, p)) => {
                    &&& pos + 4 <= buf@.len()
                    &&& p == pos + 4
                    &&& v.spec_bytes() == buf@.subrange(pos as int, pos as int + 4)
                },
                Err(CodecError::UnexpectedEndOfInput) => pos + 4 > buf@.len(),
                Err(_) => false,
            },
    {
        if buf.len() - pos < 4 {
            return Err(CodecError::UnexpectedEndOfInput);
        }
        let v = EntityId_t {
            entity_key: [buf[pos], buf[pos + 1], buf[pos + 2]],
            entity_kind: buf[pos + 3],
        };
        proof {
            assert(v.spec_bytes() =~= buf@.subrange(pos as int, pos as int + 4));
        }
        Ok((v, pos + 4))
    }

    /// Append the four-byte wire form to `out`.
    pub fn write_to(&self, out: &mut Vec<u8>)
        ensures
            final(out)@ == old(out)@ + self.spec_bytes(),
    {
        out.push(self.entity_key[0]);
        out.push(self.entity_key[1]);
        out.push(self.entity_key[2]);
        out.push(self.entity_kind);
        proof {
            assert(out@ =~= old(out)@ + self.spec_bytes());
        }
    }
}

} // verus!
