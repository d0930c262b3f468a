pub mod error;
pub mod text;
pub mod validation;
pub mod auth;
pub mod security;
pub mod response;
