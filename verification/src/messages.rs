pub mod codec_error;
pub mod data;
pub mod data_submessage_flags;
pub mod endianness;
pub mod submessage_elements;
pub mod submessage_flag;
