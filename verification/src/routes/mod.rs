pub mod access;
pub mod admin;
pub mod csv;
pub mod form_render;
pub mod pages;
pub mod respondents;
pub mod role_config;
