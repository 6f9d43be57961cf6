use vstd::prelude::*;
use crate::messages::codec_error::CodecError;
use crate::messages::data::DataContext;
use crate::messages::endianness::Endianness;
use crate::messages::submessage_elements::parameter::ParameterModel;
use crate::messages::submessage_elements::parameter_list::ParameterList;
use crate::messages::submessage_elements::parameter_list::spec_parameter_list_bytes;
use crate::messages::submessage_elements::parameter_list::spec_parse_parameter_list;
use crate::messages::submessage_elements::representation_identifier::RepresentationIdentifier;
use crate::messages::submessage_elements::serialized_payload_header::SerializedPayloadHeader;
use crate::structure::size_tracking_context::SizeTrackingContext;

verus! {

/// A SerializedPayload is either a ParameterList or user-defined data in
/// an unspecified format.
#[derive(Clone, Debug, PartialEq, Eq)]
pub enum SerializedPayloadContent {
    ParameterList(ParameterList),
    UserDefined(Vec<u8>),
}

/// A SerializedPayload contains the serialized representation of either
/// the value of an application-defined data-object or the value of the key
/// that uniquely identifies the data-object.
#[derive(Clone, Debug, PartialEq, Eq)]
pub struct SerializedPayload {
    pub header: SerializedPayloadHeader,
    pub content: SerializedPayloadContent,
}

/// `sp` is what decoding yields from the byte tail `s` with submessage
/// byte order `e` and `rem` bytes of length budget, consuming `consumed`
/// bytes: the header occupies the first four; a parameter-list
/// representation parses the rest as a parameter list in the submessage's
/// byte order, and any other representation takes the remaining budget
/// verbatim.
pub open spec fn spec_payload_matches(
    sp: SerializedPayload,
    s: Seq<u8>,
    e: Endianness,
    rem: int,
    consumed: int,
) -> bool {
    &&& s.len() >= 4
    &&& sp.header.spec_bytes() == s.subrange(0, 4)
    &&& match sp.content {
        SerializedPayloadContent::ParameterList(pl) => {
            &&& sp.header.representation_identifier.spec_is_parameter_list()
            &&& spec_parse_parameter_list(s.skip(4), e) == Ok::<(Seq<ParameterModel>, int), CodecError>(
                (pl@, consumed - 4),
            )
        },
        SerializedPayloadContent::UserDefined(v) => {
            &&& !sp.header.representation_identifier.spec_is_parameter_list()
            &&& consumed == 4 + (rem - 4)
            &&& consumed <= s.len()
            &&& v@ == s.subrange(4, consumed)
        },
    }
}

/// Why decoding a payload from the byte tail `s` fails with `err`.
pub open spec fn spec_payload_parse_fails(s: Seq<u8>, e: Endianness, rem: int, err: CodecError) -> bool {
    if s.len() < 4 {
        err == CodecError::UnexpectedEndOfInput
    } else if forall|v: RepresentationIdentifier| v.spec_bytes() != s.subrange(0, 2) {
        err == CodecError::UnknownRepresentationIdentifier
    } else {
        let ri = choose|v: RepresentationIdentifier| v.spec_bytes() == s.subrange(0, 2);
        if ri.spec_is_parameter_list() {
            spec_parse_parameter_list(s.skip(4), e) == Err::<(Seq<ParameterModel>, int), CodecError>(
                err,
            )
        } else {
            err == CodecError::UnexpectedEndOfInput && 4 + (rem - 4) > s.len()
        }
    }
}

impl SerializedPayload {
    /// The wire form: the header, then the content. A parameter list is
    /// written in the byte order its representation identifier selects;
    /// user-defined data is written verbatim.
    pub open spec fn spec_bytes(self) -> Seq<u8> {
        self.header.spec_bytes() + match self.content {
            SerializedPayloadContent::ParameterList(pl) => spec_parameter_list_bytes(
                pl@,
                self.header.representation_identifier.spec_endianness(),
            ),
            SerializedPayloadContent::UserDefined(v) => v@,
        }
    }

    /// Read the payload whose wire form starts at `pos`: the header, then
    /// either a parameter list (read in the submessage's byte order, taken
    /// from `ctx`) or the remaining length budget of `ctx` verbatim. The
    /// header's four bytes are charged against the budget.
    pub fn read_from(buf: &[u8], pos: usize, ctx: &mut DataContext) -> (r: Result<
        (SerializedPayload, usize),
        CodecError,
    >)
        requires
            pos <= buf@.len(),
            4 <= old(ctx).spec_length_remaining(),
        ensures
            final(ctx).spec_flags() == old(ctx).spec_flags(),
            match r {
                Ok((sp, p)) => {
                    &&& pos <= p <= buf@.len()
                    &&& spec_payload_matches(
                        sp,
                        buf@.skip(pos as int),
                        old(ctx).spec_flags().spec_endianness(),
                        old(ctx).spec_length_remaining() as int,
                        p - pos,
                    )
                    &&& final(ctx).spec_length_remaining() == old(ctx).spec_length_remaining() - 4
                },
                Err(err) => spec_payload_parse_fails(
                    buf@.skip(pos as int),
                    old(ctx).spec_flags().spec_endianness(),
                    old(ctx).spec_length_remaining() as int,
                    err,
                ),
            },
    {
        let ghost s = buf@.skip(pos as int);
        let header = match SerializedPayloadHeader::read_from(buf, pos) {
            Ok((h, _)) => h,
            Err(err) => {
                proof {
                    if pos + 4 <= buf@.len() {
                        assert(buf@.subrange(pos as int, pos as int + 2) =~= s.subrange(0, 2));
                    }
                }
                return Err(err);
            },
        };
        ctx.subtract_from_remaining(4);
        proof {
            assert(header.spec_bytes() =~= s.subrange(0, 4));
            assert(s.subrange(0, 4).subrange(0, 2) =~= s.subrange(0, 2));
            assert(header.representation_identifier.spec_bytes() =~= s.subrange(0, 2));
        }
        let representation_identifier = header.representation_identifier;
        if representation_identifier.is_parameter_list() {
            let e = ctx.endianness();
            match ParameterList::read_from(buf, pos + 4, e) {
                Ok((pl, q)) => {
                    let sp = SerializedPayload {
                        header,
                        content: SerializedPayloadContent::ParameterList(pl),
                    };
                    proof {
                        assert(buf@.skip(pos as int + 4) =~= s.skip(4));
                    }
                    Ok((sp, q))
                },
                Err(err) => {
                    proof {
                        assert(buf@.skip(pos as int + 4) =~= s.skip(4));
                        let ri = choose|v: RepresentationIdentifier|
                            v.spec_bytes() == s.subrange(0, 2);
                        crate::messages::submessage_elements::representation_identifier::lemma_repr_bytes_injective(
                            ri,
                            representation_identifier,
                        );
                    }
                    Err(err)
                },
            }
        } else {
            let take = ctx.length_remaining();
            let start = pos + 4;
            if buf.len() - start < take {
                proof {
                    let ri = choose|v: RepresentationIdentifier|
                        v.spec_bytes() == s.subrange(0, 2);
                    crate::messages::submessage_elements::representation_identifier::lemma_repr_bytes_injective(
                        ri,
                        representation_identifier,
                    );
                }
                return Err(CodecError::UnexpectedEndOfInput);
            }
            let end = start + take;
            let mut payload: Vec<u8> = Vec::new();
            let mut i = start;
            proof {
                assert(payload@ =~= buf@.subrange(start as int, i as int));
            }
            while i < end
                invariant
                    start <= i <= end,
                    end <= buf@.len(),
                    payload@ == buf@.subrange(start as int, i as int),
                decreases end - i,
            {
                payload.push(buf[i]);
                i = i + 1;
                proof {
                    assert(payload@ =~= buf@.subrange(start as int, i as int));
                }
            }
            let sp = SerializedPayload {
                header,
                content: SerializedPayloadContent::UserDefined(payload),
            };
            proof {
                assert(buf@.subrange(start as int, end as int) =~= s.subrange(4, end - pos));
            }
            Ok((sp, end))
        }
    }

    /// Append the wire form to `out`.
    pub fn write_to(&self, out: &mut Vec<u8>)
        requires
            self.content matches SerializedPayloadContent::ParameterList(pl) ==> forall|i: int|
                0 <= i < pl@.len() ==> (#[trigger] pl@[i]).value.len() <= 0xffff,
        ensures
            final(out)@ == old(out)@ + self.spec_bytes(),
    {
        self.header.write_to(out);
        match &self.content {
            SerializedPayloadContent::ParameterList(pl) => {
                let e = self.header.representation_identifier.endianness();
                pl.write_to(out, e);
            },
            SerializedPayloadContent::UserDefined(v) => {
                let mut i: usize = 0;
                let ghost head = out@;
                proof {
                    assert(out@ =~= head + v@.take(0));
                }
                while i < v.len()
                    invariant
                        i <= v@.len(),
                        out@ == head + v@.take(i as int),
                    decreases v@.len() - i,
                {
                    out.push(v[i]);
                    i = i + 1;
                    proof {
                        assert(v@.take(i as int) =~= v@.take(i as int - 1).push(v@[i as int - 1]));
                        assert(out@ =~= head + v@.take(i as int));
                    }
                }
                proof {
                    assert(v@.take(v@.len() as int) =~= v@);
                }
            },
        }
        proof {
            assert(out@ =~= old(out)@ + self.spec_bytes());
        }
    }
}

} // verus!
