pub mod common;
pub mod snake;
pub mod world;
