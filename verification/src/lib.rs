//! Layered REST API core: roles, permissions, authentication tokens,
//! refresh-session bookkeeping, request validation and the account and
//! product flows, each stated and proved with Verus.
pub mod common;
pub mod domains;
