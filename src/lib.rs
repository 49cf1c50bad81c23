pub mod blocks;
pub mod text;
pub mod inlines;
pub mod parse;
pub mod laws;
