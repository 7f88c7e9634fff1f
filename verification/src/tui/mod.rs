pub mod log_buffer;
pub mod config;
pub mod text;
pub mod app;
pub mod lifecycle;
pub mod view;
pub mod locale;
