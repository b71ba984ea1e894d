//! Core rules of the Tento quiz service: authorization, quiz grading,
//! partial updates, the agent job lifecycle, content preparation and the
//! request/response models they act on.

pub mod auth;
pub mod errors;
pub mod graphql;
pub mod handlers;
pub mod html;
pub mod json;
pub mod logging;
pub mod middleware;
pub mod test_utils;
pub mod text;
pub mod clock;
pub mod config;
pub mod models;
pub mod services;
