//! Logpose: the verified core of a URL shortener.
pub mod alias;
pub mod analytics;
pub mod auth;
pub mod billing;
pub mod cookies;
pub mod error;
pub mod ids;
pub mod rate_limiting;
pub mod shortcode;
pub mod text;
pub mod urls;
