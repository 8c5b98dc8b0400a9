//! Record management for an employment-history schema: request decoding,
//! statement planning, outcome handling and response sealing, each with a
//! machine-checked contract.

pub mod calendar;
pub mod canonical;
pub mod decoder;
pub mod employees;
pub mod envelope;
pub mod failure;
pub mod handlers;
pub mod json;
pub mod record;
pub mod repository;
pub mod schema;
pub mod statement;
pub mod store;
pub mod text;
