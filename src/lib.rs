pub mod event;
pub mod json;
pub mod order;
pub mod reassembler;
pub mod relay;
pub mod store;
