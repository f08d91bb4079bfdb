pub mod launcher;
