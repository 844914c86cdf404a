//! Model service: types, provider settings and the rules of the built-in providers.
pub mod types;
pub mod profiles;
pub mod compose;
pub mod settings;
pub mod entries;
pub mod ollama;
pub mod openai;
pub mod manager;
pub mod cache;
pub mod config;
pub mod schema;
