pub mod auth_handler;
