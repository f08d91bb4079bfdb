pub mod keypress_demo;
