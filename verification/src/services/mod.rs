pub mod category_service;
pub mod challenge_service;
pub mod container_service;
pub mod user_service;
