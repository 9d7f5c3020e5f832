pub mod auth_gateway;
pub mod condition_eval;
pub mod form_validator;
pub mod jobs;
pub mod retry;
pub mod rolelogic;
pub mod sync;
pub mod webhook;
