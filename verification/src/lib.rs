pub mod api;
pub mod errors;
pub mod json;
pub mod text;
