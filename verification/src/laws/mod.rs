pub mod access;
pub mod answers;
pub mod attempts;
pub mod conditions;
pub mod editing;
pub mod exports;
pub mod forms;
pub mod grading;
pub mod listings;
pub mod numbers;
pub mod operations;
pub mod pages;
pub mod queries;
pub mod queue;
pub mod replies;
pub mod roles;
pub mod submissions;
pub mod syncs;
pub mod texts;
pub mod uploads;
pub mod values;
pub mod webhooks;
