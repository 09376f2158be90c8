pub mod extract;
pub mod search;
pub mod text;
