pub mod args;
pub mod common;
pub mod config;
pub mod logger;
pub mod proxy;
pub mod tmp_dir;
