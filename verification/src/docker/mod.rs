pub mod container;
pub mod exec;
pub mod image;
