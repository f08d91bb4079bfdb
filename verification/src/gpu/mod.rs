pub mod font;
