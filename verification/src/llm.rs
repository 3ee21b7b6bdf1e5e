pub mod api_types;
pub mod client;
pub mod manager;
pub mod text_splitter;
