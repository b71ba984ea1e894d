pub mod quiz_dto;
pub mod request;
pub mod response;
pub mod validation;
