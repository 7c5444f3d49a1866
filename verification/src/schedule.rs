pub mod event;
pub mod schedule;
