pub mod actor;
pub mod shared_state;
