use vstd::prelude::*;
use crate::messages::codec_error::CodecError;
use crate::messages::data_submessage_flags::DataSubmessageFlags;
use crate::messages::endianness::Endianness;
use crate::messages::endianness::spec_u16_bytes;
use crate::messages::endianness::write_u16;
use crate::messages::submessage_elements::parameter::ParameterModel;
use crate::messages::submessage_elements::parameter_list::ParameterList;
use crate::messages::submessage_elements::parameter_list::spec_parameter_list_bytes;
use crate::messages::submessage_elements::parameter_list::spec_parse_parameter_list;
use crate::messages::submessage_elements::serialized_payload::SerializedPayload;
use crate::messages::submessage_elements::serialized_payload::SerializedPayloadContent;
use crate::messages::submessage_elements::serialized_payload::spec_payload_matches;
use crate::messages::submessage_elements::serialized_payload::spec_payload_parse_fails;
use crate::messages::submessage_flag::SubmessageFlag;
use crate::structure::entity_id::EntityId_t;
use crate::structure::sequence_number::SequenceNumber_t;
use crate::structure::size_tracking_context::SizeTrackingContext;

verus! {

/// The context threaded through the decoding of one Data submessage: the
/// submessage's flag octet, which fixes the byte order and the optional
/// elements, and the number of submessage bytes not yet consumed, which
/// sizes the trailing payload.
pub struct DataContext {
    flags: DataSubmessageFlags,
    length_remaining: usize,
}

impl DataContext {
    pub closed spec fn spec_flags(self) -> DataSubmessageFlags {
        self.flags
    }

    pub fn new(flags: SubmessageFlag, length_remaining: usize) -> (c: DataContext)
        ensures
            c.spec_flags() == (DataSubmessageFlags { submessage_flag: flags }),
            c.spec_length_remaining() == length_remaining,
    {
        DataContext { flags: DataSubmessageFlags::from(flags), length_remaining }
    }

    /// The byte order the flag octet selects.
    pub fn endianness(&self) -> (e: Endianness)
        ensures
            e == self.spec_flags().spec_endianness(),
    {
        self.flags.endianness()
    }
}

impl SizeTrackingContext for DataContext {
    closed spec fn spec_length_remaining(&self) -> usize {
        self.length_remaining
    }

    fn subtract_from_remaining(&mut self, length: usize)
        ensures
            final(self).spec_flags() == old(self).spec_flags(),
    {
        self.length_remaining = self.length_remaining - length;
    }

    fn length_remaining(&self) -> (r: usize) {
        self.length_remaining
    }
}

/// How many bytes an inline QoS parameter list occupies at the head of
/// `s`, if one is expected there and parses; zero otherwise.
pub open spec fn spec_qos_consumed(s: Seq<u8>, e: Endianness, has_qos: bool) -> int {
    if has_qos {
        match spec_parse_parameter_list(s, e) {
            Ok((ps, n)) => n,
            Err(_) => 0,
        }
    } else {
        0
    }
}

/// This Submessage is sent from a Writer to a Reader, notifying the
/// Reader of a change to a data-object belonging to the Writer. The
/// possible changes include both changes in value as well as changes to
/// the lifecycle of the data-object.
#[derive(Clone, Debug, PartialEq, Eq)]
pub struct Data {
    /// Identifies the Reader entity being informed of the change.
    pub reader_id: EntityId_t,
    /// Identifies the Writer entity that made the change.
    pub writer_id: EntityId_t,
    /// Uniquely identifies the change and the relative order for all
    /// changes made by that Writer.
    pub writer_sn: SequenceNumber_t,
    /// QoS that may affect the interpretation of the message. Present only
    /// if the inline QoS flag is set in the header.
    pub inline_qos: Option<ParameterList>,
    /// The encapsulated value or key of the data-object, when one of the
    /// payload flags is set.
    pub serialized_payload: Option<SerializedPayload>,
}

impl Data {
    /// The wire form in byte order `e`: two zeroed "extra flags" octets,
    /// the constant octets-to-inline-QoS field (16), the reader and writer
    /// entity ids, the writer's sequence number, then the optional inline
    /// QoS list and the optional payload.
    pub open spec fn spec_bytes(self, e: Endianness) -> Seq<u8> {
        seq![0u8, 0u8] + spec_u16_bytes(16, e) + self.reader_id.spec_bytes()
            + self.writer_id.spec_bytes() + self.writer_sn.spec_bytes(e) + (match self.inline_qos {
            Some(pl) => spec_parameter_list_bytes(pl@, e),
            None => Seq::empty(),
        }) + (match self.serialized_payload {
            Some(sp) => sp.spec_bytes(),
            None => Seq::empty(),
        })
    }

    /// Read the Data submessage whose body starts at `pos`. The context
    /// carries the submessage's flag octet and its length budget; the
    /// four-byte extra-flags/octets-to-inline-QoS prefix is skipped, the
    /// fixed fields are read in the flag octet's byte order, and the flag
    /// octet decides whether an inline QoS list and a payload follow.
    pub fn read_from(buf: &[u8], pos: usize, ctx: &mut DataContext) -> (r: Result<
        (Data, usize),
        CodecError,
    >)
        requires
            pos <= buf@.len(),
            old(ctx).spec_length_remaining() >= 20,
            old(ctx).spec_flags().spec_any_payload() ==> old(ctx).spec_length_remaining() >= 24,
        ensures
            final(ctx).spec_flags() == old(ctx).spec_flags(),
            match r {
                Ok((d, p)) => {
                    let flags = old(ctx).spec_flags();
                    let e = flags.spec_endianness();
                    let mid = pos + 20 + spec_qos_consumed(
                        buf@.skip(pos as int + 20),
                        e,
                        flags.spec_inline_qos(),
                    );
                    &&& pos + 20 <= mid <= p <= buf@.len()
                    &&& d.reader_id.spec_bytes() == buf@.subrange(pos as int + 4, pos as int + 8)
                    &&& d.writer_id.spec_bytes() == buf@.subrange(pos as int + 8, pos as int + 12)
                    &&& d.writer_sn.spec_bytes(e) == buf@.subrange(pos as int + 12, pos as int + 20)
                    &&& match d.inline_qos {
                        Some(pl) => flags.spec_inline_qos() && spec_parse_parameter_list(
                            buf@.skip(pos as int + 20),
                            e,
                        ) == Ok::<(Seq<ParameterModel>, int), CodecError>((pl@, mid - (pos + 20))),
                        None => !flags.spec_inline_qos() && mid == pos + 20,
                    }
                    &&& match d.serialized_payload {
                        Some(sp) => {
                            &&& flags.spec_any_payload()
                            &&& spec_payload_matches(
                                sp,
                                buf@.skip(mid),
                                e,
                                old(ctx).spec_length_remaining() - 20,
                                p - mid,
                            )
                            &&& final(ctx).spec_length_remaining() == old(
                                ctx,
                            ).spec_length_remaining() - 24
                        },
                        None => {
                            &&& !flags.spec_any_payload()
                            &&& p == mid
                            &&& final(ctx).spec_length_remaining() == old(
                                ctx,
                            ).spec_length_remaining() - 20
                        },
                    }
                },
                Err(err) => {
                    let flags = old(ctx).spec_flags();
                    let e = flags.spec_endianness();
                    let mid = pos + 20 + spec_qos_consumed(
                        buf@.skip(pos as int + 20),
                        e,
                        flags.spec_inline_qos(),
                    );
                    ||| (pos + 20 > buf@.len() && err == CodecError::UnexpectedEndOfInput)
                    ||| (pos + 20 <= buf@.len() && flags.spec_inline_qos()
                        && spec_parse_parameter_list(buf@.skip(pos as int + 20), e) == Err::<
                        (Seq<ParameterModel>, int),
                        CodecError,
                    >(err))
                    ||| (pos + 20 <= buf@.len() && flags.spec_any_payload() && (
                    flags.spec_inline_qos() ==> spec_parse_parameter_list(
                        buf@.skip(pos as int + 20),
                        e,
                    ) is Ok) && spec_payload_parse_fails(
                        buf@.skip(mid),
                        e,
                        old(ctx).spec_length_remaining() - 20,
                        err,
                    ))
                },
            },
    {
        if buf.len() - pos < 20 {
            return Err(CodecError::UnexpectedEndOfInput);
        }
        // skip over "extra flags" and "octets to inline qos"
        ctx.subtract_from_remaining(4);
        let reader_id = match EntityId_t::read_from(buf, pos + 4) {
            Ok((v, _)) => v,
            Err(err) => {
                return Err(err);
            },
        };
        ctx.subtract_from_remaining(4);
        let writer_id = match EntityId_t::read_from(buf, pos + 8) {
            Ok((v, _)) => v,
            Err(err) => {
                return Err(err);
            },
        };
        ctx.subtract_from_remaining(4);
        let e = ctx.endianness();
        let writer_sn = match SequenceNumber_t::read_from(buf, pos + 12, e) {
            Ok((v, _)) => v,
            Err(err) => {
                return Err(err);
            },
        };
        ctx.subtract_from_remaining(8);
        let mut mid = pos + 20;
        let inline_qos: Option<ParameterList> = if ctx.flags.inline_qos() {
            match ParameterList::read_from(buf, pos + 20, e) {
                Ok((pl, q)) => {
                    mid = q;
                    Some(pl)
                },
                Err(err) => {
                    return Err(err);
                },
            }
        } else {
            None
        };
        let (serialized_payload, end): (Option<SerializedPayload>, usize) = if ctx.flags.any_payload() {
            match SerializedPayload::read_from(buf, mid, ctx) {
                Ok((sp, q)) => (Some(sp), q),
                Err(err) => {
                    return Err(err);
                },
            }
        } else {
            (None, mid)
        };
        Ok((Data { reader_id, writer_id, writer_sn, inline_qos, serialized_payload }, end))
    }

    /// Append the wire form to `out`, in byte order `e`.
    pub fn write_to(&self, out: &mut Vec<u8>, e: Endianness)
        requires
            self.inline_qos matches Some(pl) ==> forall|i: int|
                0 <= i < pl@.len() ==> (#[trigger] pl@[i]).value.len() <= 0xffff,
            self.serialized_payload matches Some(sp) ==> (sp.content matches
                SerializedPayloadContent::ParameterList(pl2) ==> forall|i: int|
                0 <= i < pl2@.len() ==> (#[trigger] pl2@[i]).value.len() <= 0xffff),
        ensures
            final(out)@ == old(out)@ + self.spec_bytes(e),
    {
        // the standard has all extra-flags bits zero in this version
        out.push(0);
        out.push(0);
        // "octets to inline QoS" is always 16 here
        write_u16(out, 16, e);
        self.reader_id.write_to(out);
        self.writer_id.write_to(out);
        self.writer_sn.write_to(out, e);
        if let Some(pl) = &self.inline_qos {
            pl.write_to(out, e);
        }
        if let Some(sp) = &self.serialized_payload {
            sp.write_to(out);
        }
        proof {
            assert(out@ =~= old(out)@ + self.spec_bytes(e));
        }
    }
}

} // verus!
