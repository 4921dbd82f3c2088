pub mod category;
pub mod claims;
pub mod container;
pub mod errors;
pub mod challenge;
pub mod role;
pub mod user;
