pub mod auth;
pub mod clock;
pub mod config;
pub mod entities;
pub mod env;
pub mod error;
pub mod feed;
pub mod json;
pub mod laws;
pub mod migration;
pub mod openapi;
pub mod pagination;
pub mod plugins;
pub mod rate_limit;
pub mod text;
