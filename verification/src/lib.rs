pub mod escape;
pub mod events;
pub mod render;
pub mod sanitizer;
pub mod tokenizer;
