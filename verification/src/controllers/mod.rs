pub mod category_controller;
pub mod challenge_controller;
pub mod container_controller;
pub mod errors;
pub mod user_controller;
