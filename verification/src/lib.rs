pub mod claims;
pub mod engine;
pub mod errors;
pub mod maker;
pub mod order;
pub mod purpose;
pub mod timestamp;
pub mod value;
pub mod version;
