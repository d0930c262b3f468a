pub mod dto;
pub mod entity;
pub mod repository;
pub mod service;
