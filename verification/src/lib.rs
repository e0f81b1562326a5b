pub mod text;
pub mod timestamp;
pub mod json;
pub mod effort;
pub mod segment;
pub mod model;
pub mod context_window;
pub mod transcript;
