pub mod aggregate;
pub mod category;
pub mod filter;
pub mod order;
pub mod pagination;
