pub mod csrf;
pub mod rate_limiter;
pub mod store;
