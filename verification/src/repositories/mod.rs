pub mod category_repository;
pub mod challenge_repository;
