//! The logic of a small content backend: identifiers, slugs, password
//! checks, signed session tokens and the decisions of its request handlers.

pub mod hashing;
pub mod snowflake;
pub mod text;
pub mod base64url;
pub mod json;
pub mod jwt;
pub mod pattern;
pub mod password;
pub mod commons;
pub mod auth;
pub mod writings;
pub mod files;
