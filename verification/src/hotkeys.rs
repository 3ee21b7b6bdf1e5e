pub mod handlers;
pub mod listener;
pub mod validator;
