pub mod config;
pub mod control;
pub mod daemon;
pub mod hypr;
pub mod logging;
pub mod paths;
pub mod text;
