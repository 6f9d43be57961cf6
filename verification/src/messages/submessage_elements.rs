pub mod parameter;
pub mod parameter_list;
pub mod representation_identifier;
pub mod serialized_payload;
pub mod serialized_payload_header;
