pub mod auth;
pub mod drives;
pub mod errors;
pub mod files;
