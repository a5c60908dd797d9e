//! Request validation, query planning and note operations for a small
//! notes service.

pub mod text;
pub mod error;
pub mod pagination;
pub mod datetime;
pub mod note;
pub mod validation;
pub mod plan;
pub mod store;
pub mod service;
pub mod app_error;
pub mod database;
