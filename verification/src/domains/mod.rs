pub mod account;
pub mod product;
