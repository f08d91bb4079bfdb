pub mod input;
pub mod state;
