pub mod axum;
pub mod parse;
pub mod result;
pub mod runtime;
pub mod runwasm;
pub mod scheduler;
pub mod task;
