pub mod helpers;
pub mod schema;
