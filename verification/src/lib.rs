//! Core of a payment-channel jamming simulator: simulated time and money,
//! per-direction bounded slot managers with transactional time-based
//! eviction, a time-ordered event schedule, and multi-hop fee composition.

pub mod channel;
pub mod common;
pub mod payment;
pub mod pqueue;
pub mod schedule;
pub mod timedqueue;




