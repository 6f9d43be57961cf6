use rtps_actor::messages::endianness::Endianness;
use rtps_actor::messages::submessage_flag::SubmessageFlag;

#[test]
fn endianness_flag() {
    assert_eq!(
        Endianness::BigEndian,
        SubmessageFlag { flags: 0x00 }.endianness_flag()
    );
    assert_eq!(
        Endianness::LittleEndian,
        SubmessageFlag { flags: 0x01 }.endianness_flag()
    );
}

#[test]
fn correct_bits_order() {
    let submessage_flag = SubmessageFlag {
        flags: 0b10110100_u8,
    };

    assert!(!submessage_flag.is_flag_set(0b0000_0001));
    assert!(!submessage_flag.is_flag_set(0b0000_0010));
    assert!(submessage_flag.is_flag_set(0b0000_0100));
    assert!(!submessage_flag.is_flag_set(0b0000_1000));
    assert!(submessage_flag.is_flag_set(0b0001_0000));
    assert!(submessage_flag.is_flag_set(0b0010_0000));
    assert!(!submessage_flag.is_flag_set(0b0100_0000));
    assert!(submessage_flag.is_flag_set(0b1000_0000));
}

#[test]
fn helper_functions_test() {
    for x in 0..7 {
        let mut flags = SubmessageFlag { flags: 0x00 };
        let bit = u8::from(2).pow(x);

        assert!(!flags.is_flag_set(bit));
        flags.set_flag(bit);
        assert!(flags.is_flag_set(bit));
        flags.clear_flag(bit);
        assert!(!flags.is_flag_set(bit));
    }
}

#[test]
fn submessage_flag_wire_form() {
    let flag = SubmessageFlag {
        flags: 0b10110100_u8,
    };
    let mut out = Vec::new();
    flag.write_to(&mut out);
    assert_eq!(out, vec![0b10110100_u8]);
    let back = SubmessageFlag::read_from(&out, 0);
    assert_eq!(back, flag);
}
