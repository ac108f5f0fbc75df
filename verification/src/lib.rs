pub mod codes;
pub mod katana;
pub mod markup;
pub mod pattern;
pub mod protect;
pub mod repair;
pub mod rules;
pub mod segment;
pub mod text;
