pub mod queries;
pub mod store;
