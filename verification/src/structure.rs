pub mod entity_id;
pub mod sequence_number;
pub mod size_tracking_context;
