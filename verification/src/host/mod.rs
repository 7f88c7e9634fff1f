pub mod service;
pub mod settings;
