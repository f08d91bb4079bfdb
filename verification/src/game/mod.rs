pub mod snake;
pub mod key_indicator;
