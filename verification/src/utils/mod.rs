pub mod connection;
pub mod decimal;
pub mod filter;
pub mod page;
pub mod text;
pub mod url_safe;
