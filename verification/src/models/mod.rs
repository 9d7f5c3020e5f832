pub mod condition;
pub mod form;
