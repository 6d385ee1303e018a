pub mod aggregate;
pub mod color;
pub mod driver;
pub mod laws;
pub mod render;
