pub mod authorization;
pub mod jwt;
pub mod permission;
pub mod refresh_token;
pub mod role;
pub mod extractor;
