pub mod domain;
pub mod dto;
pub mod user_model;
