use vstd::prelude::*;
use crate::messages::endianness::Endianness;
use crate::messages::submessage_flag::SubmessageFlag;

verus! {

/// The flag octet of a Data submessage, with the flag positions that this
/// submessage kind gives a meaning to.
#[derive(Clone, Copy, Debug, PartialOrd, PartialEq, Ord, Eq, Structural)]
pub struct DataSubmessageFlags {
    pub submessage_flag: SubmessageFlag,
}

impl DataSubmessageFlags {
    pub const INLINE_QOS_FLAG_MASK: u8 = 0x02;

    pub const DATA_FLAG_MASK: u8 = 0x04;

    pub const KEY_FLAG_MASK: u8 = 0x08;

    pub const NON_STANDARD_PAYLOAD_FLAG_MASK: u8 = 0x10;

    pub open spec fn spec_is_flag_set(self, mask: u8) -> bool {
        self.submessage_flag.flags & mask != 0
    }

    pub open spec fn spec_inline_qos(self) -> bool {
        self.spec_is_flag_set(0x02)
    }

    pub open spec fn spec_data_payload(self) -> bool {
        self.spec_is_flag_set(0x04) && !self.spec_is_flag_set(0x08)
    }

    pub open spec fn spec_key_payload(self) -> bool {
        !self.spec_is_flag_set(0x04) && self.spec_is_flag_set(0x08)
    }

    pub open spec fn spec_non_standard_payload(self) -> bool {
        self.spec_is_flag_set(0x10)
    }

    pub open spec fn spec_any_payload(self) -> bool {
        self.spec_data_payload() || self.spec_key_payload() || self.spec_non_standard_payload()
    }

    pub open spec fn spec_endianness(self) -> Endianness {
        self.submessage_flag.spec_endianness()
    }

    /// The submessage carries an inline QoS parameter list.
    pub fn inline_qos(&self) -> (r: bool)
        ensures
            r == self.spec_inline_qos(),
    {
        self.is_flag_set(Self::INLINE_QOS_FLAG_MASK)
    }

    /// The payload encapsulates the new value of the data-object.
    pub fn data_payload(&self) -> (r: bool)
        ensures
            r == self.spec_data_payload(),
    {
        self.is_flag_set(Self::DATA_FLAG_MASK) && !self.is_flag_set(Self::KEY_FLAG_MASK)
    }

    /// The payload encapsulates the key of the data-object.
    pub fn key_payload(&self) -> (r: bool)
        ensures
            r == self.spec_key_payload(),
    {
        !self.is_flag_set(Self::DATA_FLAG_MASK) && self.is_flag_set(Self::KEY_FLAG_MASK)
    }

    /// The payload is not formatted according to the standard sections.
    pub fn non_standard_payload(&self) -> (r: bool)
        ensures
            r == self.spec_non_standard_payload(),
    {
        self.is_flag_set(Self::NON_STANDARD_PAYLOAD_FLAG_MASK)
    }

    /// Some serialized payload follows the fixed-size submessage fields.
    pub fn any_payload(&self) -> (r: bool)
        ensures
            r == self.spec_any_payload(),
    {
        self.data_payload() || self.key_payload() || self.non_standard_payload()
    }

    pub fn is_flag_set(&self, mask: u8) -> (r: bool)
        ensures
            r == self.spec_is_flag_set(mask),
    {
        self.submessage_flag.flags & mask != 0
    }

    /// The byte order selected by the endianness flag (bit 0).
    pub fn endianness(&self) -> (e: Endianness)
        ensures
            e == self.spec_endianness(),
    {
        self.submessage_flag.endianness_flag()
    }
}

impl From<SubmessageFlag> for DataSubmessageFlags {
    fn from(submessage_flag: SubmessageFlag) -> (r: DataSubmessageFlags) {
        DataSubmessageFlags { submessage_flag }
    }
}

impl vstd::std_specs::convert::FromSpecImpl<SubmessageFlag> for DataSubmessageFlags {
    open spec fn obeys_from_spec() -> bool {
        true
    }

    open spec fn from_spec(submessage_flag: SubmessageFlag) -> DataSubmessageFlags {
        DataSubmessageFlags { submessage_flag }
    }
}

} // verus!
