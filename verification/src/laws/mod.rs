//! What is proved of the generated code beyond its text: what each block
//! does on the machine, that generated names never collide, and what the
//! scanner lets through.

pub mod blocks;
pub mod frames;
pub mod labels;
pub mod layout;
pub mod scanner;
pub mod stack;
