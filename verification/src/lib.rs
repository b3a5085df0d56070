pub mod config;
pub mod decimal;
pub mod endpoint;
pub mod field;
pub mod form;
pub mod message;
pub mod reply;
pub mod text;
pub mod xml;
