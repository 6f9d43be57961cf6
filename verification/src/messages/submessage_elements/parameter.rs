use vstd::prelude::*;
use crate::messages::codec_error::CodecError;
use crate::messages::endianness::Endianness;
use crate::messages::endianness::read_u16;
use crate::messages::endianness::spec_u16_bytes;
use crate::messages::endianness::spec_u16_of;
use crate::messages::endianness::write_u16;

verus! {

/// The parameter id of a padding entry: skipped when a list is read.
pub const PID_PAD: u16 = 0x0000;

/// The parameter id that terminates a parameter list.
pub const PID_SENTINEL: u16 = 0x0001;

/// Spec-level state of one parameter: its id and its value bytes.
#[verifier::ext_equal]
pub ghost struct ParameterModel {
    pub id: u16,
    pub value: Seq<u8>,
}

impl ParameterModel {
    /// The wire form: the id, then the value's length, both in byte order
    /// `e`, then the value bytes.
    pub open spec fn spec_bytes(self, e: Endianness) -> Seq<u8> {
        spec_u16_bytes(self.id, e) + spec_u16_bytes(self.value.len() as u16, e) + self.value
    }
}

/// What parsing one parameter at the head of `s` yields: the parameter and
/// the number of bytes its wire form occupies.
pub open spec fn spec_parse_parameter(s: Seq<u8>, e: Endianness) -> Result<
    (ParameterModel, int),
    CodecError,
> {
    if s.len() < 4 {
        Err(CodecError::UnexpectedEndOfInput)
    } else {
        let id = spec_u16_of(s[0], s[1], e);
        let len = spec_u16_of(s[2], s[3], e) as int;
        if s.len() < 4 + len {
            Err(CodecError::UnexpectedEndOfInput)
        } else {
            Ok((ParameterModel { id, value: s.subrange(4, 4 + len) }, 4 + len))
        }
    }
}

/// One entry of a parameter list: an id and a length-prefixed value.
#[derive(Clone, Debug, PartialEq, Eq)]
pub struct Parameter {
    pub id: u16,
    pub value: Vec<u8>,
}

impl View for Parameter {
    type V = ParameterModel;

    open spec fn view(&self) -> ParameterModel {
        ParameterModel { id: self.id, value: self.value@ }
    }
}

impl Parameter {
    pub fn get_id(&self) -> (r: u16)
        ensures
            r == self@.id,
    {
        self.id
    }

    pub fn is_sentinel(&self) -> (r: bool)
        ensures
            r == (self@.id == PID_SENTINEL),
    {
        self.id == PID_SENTINEL
    }

    /// An empty-valued parameter with the sentinel id.
    pub fn new_sentinel() -> (r: Parameter)
        ensures
            r@ == (ParameterModel { id: PID_SENTINEL, value: Seq::empty() }),
    {
        let r = Parameter { id: PID_SENTINEL, value: Vec::new() };
        proof {
            assert(r@ =~= ParameterModel { id: PID_SENTINEL, value: Seq::empty() });
        }
        r
    }

    /// Read the parameter whose wire form starts at `pos`.
    pub fn read_from(buf: &[u8], pos: usize, e: Endianness) -> (r: Result<
        (Parameter, usize),
        CodecError,
    >)
        requires
            pos <= buf@.len(),
        ensures
            match (r, spec_parse_parameter(buf@.skip(pos as int), e)) {
                (Ok((p, q)), Ok((pm, n))) => p@ == pm && q == pos + n && pos <= q <= buf@.len(),
                (Err(e1), Err(e2)) => e1 == e2,
                _ => false,
            },
    {
        let ghost s = buf@.skip(pos as int);
        if buf.len() - pos < 4 {
            return Err(CodecError::UnexpectedEndOfInput);
        }
        let id = read_u16(buf, pos, e);
        let len = read_u16(buf, pos + 2, e);
        proof {
            assert(s[0] == buf@[pos as int] && s[1] == buf@[pos as int + 1] && s[2] == buf@[
            pos as int + 2] && s[3] == buf@[pos as int + 3]);
        }
        if buf.len() - (pos + 4) < len as usize {
            return Err(CodecError::UnexpectedEndOfInput);
        }
        let end = pos + 4 + len as usize;
        let mut value: Vec<u8> = Vec::new();
        let mut i = pos + 4;
        proof {
            assert(value@ =~= buf@.subrange(pos as int + 4, i as int));
        }
        while i < end
            invariant
                pos + 4 <= i <= end,
                end <= buf@.len(),
                value@ == buf@.subrange(pos as int + 4, i as int),
            decreases end - i,
        {
            value.push(buf[i]);
            i = i + 1;
            proof {
                assert(value@ =~= buf@.subrange(pos as int + 4, i as int));
            }
        }
        let p = Parameter { id, value };
        proof {
            assert(p@.value =~= s.subrange(4, 4 + len as int));
        }
        Ok((p, end))
    }

    /// Append the wire form to `out`.
    pub fn write_to(&self, out: &mut Vec<u8>, e: Endianness)
        requires
            self@.value.len() <= 0xffff,
        ensures
            final(out)@ == old(out)@ + self@.spec_bytes(e),
    {
        write_u16(out, self.id, e);
        write_u16(out, self.value.len() as u16, e);
        let ghost head = out@;
        let mut i: usize = 0;
        proof {
            assert(out@ =~= head + self@.value.take(i as int));
        }
        while i < self.value.len()
            invariant
                i <= self.value.len(),
                out@ == head + self@.value.take(i as int),
            decreases self.value.len() - i,
        {
            out.push(self.value[i]);
            i = i + 1;
            proof {
                assert(self@.value.take(i as int) =~= self@.value.take(i as int - 1).push(
                    self@.value[i as int - 1],
                ));
                assert(out@ =~= head + self@.value.take(i as int));
            }
        }
        proof {
            assert(self@.value.take(self@.value.len() as int) =~= self@.value);
            assert(out@ =~= old(out)@ + self@.spec_bytes(e));
        }
    }
}

} // verus!
