//! In-memory model, validator, normaliser and canonical printer for TypeQL queries.
pub mod text;
pub mod token;
pub mod error;
pub mod value;
pub mod expression;
pub mod statement;
pub mod normal;
pub mod pattern;
pub mod rule;
pub mod query;
pub mod builder;
pub mod equality;
