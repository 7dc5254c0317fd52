//! User management core: self-validating value objects, the `User` aggregate,
//! a criteria model with a whitelist-checked SQL query builder, the repository
//! contract with an in-memory implementation, and the application services.

pub mod application;
pub mod criteria;
pub mod in_memory;
pub mod matching;
pub mod query;
pub mod repository;
pub mod text;
pub mod user;
pub mod user_email;
pub mod user_id;
pub mod user_name;
pub mod user_password;
pub mod validation;
