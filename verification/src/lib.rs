pub mod bouncer;
pub mod buffer;
pub mod config;
pub mod encode;
pub mod formatting;
pub mod metadata;
pub mod server;
pub mod strutil;
pub mod user;
