//! A verified controller for a local stable-diffusion server.

pub mod adapter;
pub mod config;
pub mod events;
pub mod install;
pub mod json;
pub mod model_files;
pub mod models;
pub mod paths;
pub mod platform;
pub mod release;
pub mod server;
pub mod text;
pub mod transfer;
pub mod walk;
