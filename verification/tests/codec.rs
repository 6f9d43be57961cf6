use rtps_actor::messages::codec_error::CodecError;
use rtps_actor::messages::data::Data;
use rtps_actor::messages::data::DataContext;
use rtps_actor::messages::data_submessage_flags::DataSubmessageFlags;
use rtps_actor::messages::endianness::Endianness;
use rtps_actor::messages::submessage_elements::parameter::Parameter;
use rtps_actor::messages::submessage_elements::parameter_list::ParameterList;
use rtps_actor::messages::submessage_elements::representation_identifier::RepresentationIdentifier;
use rtps_actor::messages::submessage_elements::serialized_payload::SerializedPayload;
use rtps_actor::messages::submessage_elements::serialized_payload::SerializedPayloadContent;
use rtps_actor::messages::submessage_elements::serialized_payload_header::SerializedPayloadHeader;
use rtps_actor::messages::submessage_flag::SubmessageFlag;
use rtps_actor::structure::entity_id::EntityId_t;
use rtps_actor::structure::sequence_number::SequenceNumber_t;
use rtps_actor::structure::size_tracking_context::SizeTrackingContext;

#[test]
fn data_submessage_flags() {
    let f = DataSubmessageFlags::from(SubmessageFlag { flags: 0x02 });
    assert!(f.inline_qos());
    assert!(!f.any_payload());

    let f = DataSubmessageFlags::from(SubmessageFlag { flags: 0x04 });
    assert!(f.data_payload());
    assert!(!f.key_payload());
    assert!(f.any_payload());

    let f = DataSubmessageFlags::from(SubmessageFlag { flags: 0x08 });
    assert!(!f.data_payload());
    assert!(f.key_payload());
    assert!(f.any_payload());

    // data and key flags together select neither encapsulation
    let f = DataSubmessageFlags::from(SubmessageFlag { flags: 0x0c });
    assert!(!f.data_payload());
    assert!(!f.key_payload());
    assert!(!f.any_payload());

    let f = DataSubmessageFlags::from(SubmessageFlag { flags: 0x10 });
    assert!(f.non_standard_payload());
    assert!(f.any_payload());

    assert_eq!(
        DataSubmessageFlags::from(SubmessageFlag { flags: 0x01 }).endianness(),
        Endianness::LittleEndian
    );
    assert_eq!(
        DataSubmessageFlags::from(SubmessageFlag { flags: 0x00 }).endianness(),
        Endianness::BigEndian
    );
}

#[test]
fn representation_identifier_values() {
    assert_eq!(
        RepresentationIdentifier::try_from_bytes([0x00, 0x03]),
        Ok(RepresentationIdentifier::PL_CDR_LE)
    );
    assert_eq!(
        RepresentationIdentifier::try_from_bytes([0x00, 0x04]),
        Ok(RepresentationIdentifier::XML)
    );
    assert_eq!(RepresentationIdentifier::try_from_bytes([0x01, 0x00]), Err(()));
    assert_eq!(RepresentationIdentifier::try_from_bytes([0x00, 0x16]), Err(()));

    assert_eq!(RepresentationIdentifier::CDR2_LE.to_bytes(), [0x00, 0x11]);
    assert!(RepresentationIdentifier::PL_CDR2_BE.is_parameter_list());
    assert!(!RepresentationIdentifier::CDR_LE.is_parameter_list());
    assert_eq!(
        RepresentationIdentifier::D_CDR_BE.endianness(),
        Endianness::BigEndian
    );
    assert_eq!(
        RepresentationIdentifier::default(),
        RepresentationIdentifier::CDR_LE
    );

    let r = RepresentationIdentifier::read_from(&[0x00, 0x15], 0);
    assert_eq!(r, Ok((RepresentationIdentifier::D_CDR_LE, 2)));
    let r = RepresentationIdentifier::read_from(&[0x00], 0);
    assert_eq!(r, Err(CodecError::UnexpectedEndOfInput));
    let r = RepresentationIdentifier::read_from(&[0x7f, 0x15], 0);
    assert_eq!(r, Err(CodecError::UnknownRepresentationIdentifier));
}

#[test]
fn parameter_wire_form() {
    let p = Parameter { id: 0x0005, value: vec![1, 2, 3, 4] };
    let mut out = Vec::new();
    p.write_to(&mut out, Endianness::LittleEndian);
    assert_eq!(out, vec![0x05, 0x00, 0x04, 0x00, 1, 2, 3, 4]);

    let (q, end) = Parameter::read_from(&out, 0, Endianness::LittleEndian).unwrap();
    assert_eq!(q, p);
    assert_eq!(end, 8);

    let mut out = Vec::new();
    p.write_to(&mut out, Endianness::BigEndian);
    assert_eq!(out, vec![0x00, 0x05, 0x00, 0x04, 1, 2, 3, 4]);

    assert_eq!(
        Parameter::read_from(&[0x05, 0x00, 0x04, 0x00, 1], 0, Endianness::LittleEndian),
        Err(CodecError::UnexpectedEndOfInput)
    );
}

#[test]
fn parameter_list_skips_pads_and_stops_at_sentinel() {
    let bytes = [
        0x05, 0x00, 0x02, 0x00, 0xaa, 0xbb, // an ordinary parameter
        0x00, 0x00, 0x00, 0x00, // a pad, skipped
        0x07, 0x00, 0x00, 0x00, // another ordinary parameter, empty value
        0x01, 0x00, 0x00, 0x00, // the sentinel
        0xff, 0xff, // trailing bytes, not consumed
    ];
    let (pl, end) = ParameterList::read_from(&bytes, 0, Endianness::LittleEndian).unwrap();
    assert_eq!(end, 18);
    assert_eq!(pl.parameters.len(), 2);
    assert_eq!(pl.parameters[0], Parameter { id: 5, value: vec![0xaa, 0xbb] });
    assert_eq!(pl.parameters[1], Parameter { id: 7, value: vec![] });

    // an unterminated list runs off the end of the input
    assert_eq!(
        ParameterList::read_from(&bytes[0..6], 0, Endianness::LittleEndian),
        Err(CodecError::UnexpectedEndOfInput)
    );
}

#[test]
fn parameter_list_write_appends_sentinel() {
    let pl = ParameterList {
        parameters: vec![Parameter { id: 5, value: vec![0xaa, 0xbb] }],
    };
    let mut out = Vec::new();
    pl.write_to(&mut out, Endianness::LittleEndian);
    assert_eq!(
        out,
        vec![0x05, 0x00, 0x02, 0x00, 0xaa, 0xbb, 0x01, 0x00, 0x00, 0x00]
    );

    // an explicit sentinel stops the list early
    let pl = ParameterList {
        parameters: vec![
            Parameter { id: 1, value: vec![] },
            Parameter { id: 9, value: vec![1] },
        ],
    };
    let mut out = Vec::new();
    pl.write_to(&mut out, Endianness::LittleEndian);
    assert_eq!(out, vec![0x01, 0x00, 0x00, 0x00]);
}

#[test]
fn serialized_payload_header_wire_form() {
    let h = SerializedPayloadHeader::default();
    let mut out = Vec::new();
    h.write_to(&mut out);
    assert_eq!(out, vec![0x00, 0x01, 0x00, 0x00]);

    let (back, end) = SerializedPayloadHeader::read_from(&[0x00, 0x02, 0x07, 0x08], 0).unwrap();
    assert_eq!(end, 4);
    assert_eq!(back.representation_identifier, RepresentationIdentifier::PL_CDR_BE);
    assert_eq!(back.representation_options, [0x07, 0x08]);

    assert_eq!(
        SerializedPayloadHeader::read_from(&[0x00, 0x02, 0x07], 0),
        Err(CodecError::UnexpectedEndOfInput)
    );
    assert_eq!(
        SerializedPayloadHeader::read_from(&[0x00, 0xaa, 0x07, 0x08], 0),
        Err(CodecError::UnknownRepresentationIdentifier)
    );
}

#[test]
fn serialized_payload_user_defined_takes_remaining_budget() {
    // little-endian flags, no payload flags needed for the element itself
    let mut ctx = DataContext::new(SubmessageFlag { flags: 0x01 }, 7);
    let bytes = [0x00, 0x01, 0x00, 0x00, 0x09, 0x08, 0x07, 0xff];
    let (sp, end) = SerializedPayload::read_from(&bytes, 0, &mut ctx).unwrap();
    assert_eq!(end, 7);
    assert_eq!(ctx.length_remaining(), 3);
    match sp.content {
        SerializedPayloadContent::UserDefined(v) => assert_eq!(v, vec![0x09, 0x08, 0x07]),
        _ => panic!("plain CDR payload is user-defined"),
    }
}

#[test]
fn serialized_payload_parameter_list() {
    let mut ctx = DataContext::new(SubmessageFlag { flags: 0x01 }, 20);
    let bytes = [
        0x00, 0x03, 0x00, 0x00, // PL_CDR_LE header
        0x05, 0x00, 0x02, 0x00, 0xaa, 0xbb, // one parameter
        0x01, 0x00, 0x00, 0x00, // sentinel
    ];
    let (sp, end) = SerializedPayload::read_from(&bytes, 0, &mut ctx).unwrap();
    assert_eq!(end, 14);
    match &sp.content {
        SerializedPayloadContent::ParameterList(pl) => {
            assert_eq!(pl.parameters, vec![Parameter { id: 5, value: vec![0xaa, 0xbb] }]);
        },
        _ => panic!("PL_CDR payload is a parameter list"),
    }

    // writing uses the identifier's own byte order
    let mut out = Vec::new();
    sp.write_to(&mut out);
    assert_eq!(
        out,
        vec![0x00, 0x03, 0x00, 0x00, 0x05, 0x00, 0x02, 0x00, 0xaa, 0xbb, 0x01, 0x00, 0x00, 0x00]
    );
}

#[test]
fn entity_id_and_sequence_number_wire_forms() {
    let id = EntityId_t { entity_key: [1, 2, 3], entity_kind: 0xc2 };
    let mut out = Vec::new();
    id.write_to(&mut out);
    assert_eq!(out, vec![1, 2, 3, 0xc2]);
    assert_eq!(EntityId_t::read_from(&out, 0), Ok((id, 4)));

    let sn = SequenceNumber_t { high: 0, low: 5 };
    let mut out = Vec::new();
    sn.write_to(&mut out, Endianness::LittleEndian);
    assert_eq!(out, vec![0, 0, 0, 0, 5, 0, 0, 0]);
    let mut out = Vec::new();
    sn.write_to(&mut out, Endianness::BigEndian);
    assert_eq!(out, vec![0, 0, 0, 0, 0, 0, 0, 5]);
    assert_eq!(SequenceNumber_t::read_from(&out, 0, Endianness::BigEndian), Ok((sn, 8)));

    let neg = SequenceNumber_t { high: -1, low: 0xffff_ffff };
    let mut out = Vec::new();
    neg.write_to(&mut out, Endianness::LittleEndian);
    assert_eq!(out, vec![0xff; 8]);
}

#[test]
fn data_context_tracks_length() {
    let mut ctx = DataContext::new(SubmessageFlag { flags: 0x00 }, 100);
    assert_eq!(ctx.endianness(), Endianness::BigEndian);
    assert_eq!(ctx.length_remaining(), 100);
    ctx.subtract_from_remaining(30);
    assert_eq!(ctx.length_remaining(), 70);
}

#[test]
fn data_round_trip_without_optional_elements() {
    let d = Data {
        reader_id: EntityId_t { entity_key: [0, 0, 1], entity_kind: 0xc7 },
        writer_id: EntityId_t { entity_key: [0, 0, 2], entity_kind: 0xc2 },
        writer_sn: SequenceNumber_t { high: 0, low: 5 },
        inline_qos: None,
        serialized_payload: None,
    };
    let mut out = Vec::new();
    d.write_to(&mut out, Endianness::LittleEndian);
    assert_eq!(
        out,
        vec![
            0, 0, 16, 0, // extra flags, octets to inline QoS
            0, 0, 1, 0xc7, // reader id
            0, 0, 2, 0xc2, // writer id
            0, 0, 0, 0, 5, 0, 0, 0, // sequence number
        ]
    );

    // little-endian flag octet, no inline QoS, no payload flags
    let mut ctx = DataContext::new(SubmessageFlag { flags: 0x01 }, 20);
    let (back, end) = Data::read_from(&out, 0, &mut ctx).unwrap();
    assert_eq!(end, 20);
    assert_eq!(back, d);
    assert_eq!(ctx.length_remaining(), 0);
}

#[test]
fn data_round_trip_with_payload() {
    let d = Data {
        reader_id: EntityId_t { entity_key: [0, 0, 1], entity_kind: 0xc7 },
        writer_id: EntityId_t { entity_key: [0, 0, 2], entity_kind: 0xc2 },
        writer_sn: SequenceNumber_t { high: 0, low: 9 },
        inline_qos: None,
        serialized_payload: Some(SerializedPayload {
            header: SerializedPayloadHeader::default(),
            content: SerializedPayloadContent::UserDefined(vec![0xaa, 0xbb]),
        }),
    };
    let mut out = Vec::new();
    d.write_to(&mut out, Endianness::LittleEndian);
    assert_eq!(out.len(), 26);

    // flag octet: little-endian plus the data-payload flag
    let mut ctx = DataContext::new(SubmessageFlag { flags: 0x05 }, 26);
    let (back, end) = Data::read_from(&out, 0, &mut ctx).unwrap();
    assert_eq!(end, 26);
    assert_eq!(back, d);
}

#[test]
fn data_read_rejects_short_input() {
    let mut ctx = DataContext::new(SubmessageFlag { flags: 0x01 }, 20);
    assert_eq!(
        Data::read_from(&[0u8; 10], 0, &mut ctx),
        Err(CodecError::UnexpectedEndOfInput)
    );
}

#[test]
fn data_read_with_inline_qos() {
    let mut body = vec![
        0, 0, 16, 0, // extra flags, octets to inline QoS
        0, 0, 0, 0xc7, // reader id
        0, 0, 0, 0xc2, // writer id
        0, 0, 0, 0, 7, 0, 0, 0, // sequence number
    ];
    body.extend_from_slice(&[0x05, 0x00, 0x02, 0x00, 0xaa, 0xbb]); // one parameter
    body.extend_from_slice(&[0x01, 0x00, 0x00, 0x00]); // sentinel

    // little-endian plus the inline QoS flag
    let mut ctx = DataContext::new(SubmessageFlag { flags: 0x03 }, 30);
    let (back, end) = Data::read_from(&body, 0, &mut ctx).unwrap();
    assert_eq!(end, 30);
    let qos = back.inline_qos.expect("the flag announces an inline QoS list");
    assert_eq!(qos.parameters, vec![Parameter { id: 5, value: vec![0xaa, 0xbb] }]);
    assert!(back.serialized_payload.is_none());
}
