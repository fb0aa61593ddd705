pub mod digits;
pub mod errors;
pub mod models;
pub mod router;
pub mod services;
pub mod store;
