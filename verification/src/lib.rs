pub mod double;
pub mod error;
pub mod json;
pub mod laws;
pub mod models;
pub mod numerals;
pub mod outside;
pub mod routes;
pub mod schema;
pub mod services;
pub mod table;
pub mod tasks;
pub mod text;
pub mod time;
