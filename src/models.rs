pub mod post;
pub mod postmeta;
pub mod term;
pub mod term_relationship;
pub mod term_taxonomy;
