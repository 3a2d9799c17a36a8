//! Request handling logic of a small git-style repository server.
pub mod config;
pub mod models;
pub mod number;
pub mod outside;
pub mod response;
pub mod text;
pub mod storage;
pub mod request;
pub mod routing;
pub mod handlers;
