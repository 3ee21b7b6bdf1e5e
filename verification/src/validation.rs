pub mod limits;
pub mod text;
