pub mod handlers;
pub mod responses;
