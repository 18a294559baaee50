//! A minimal cooperative task executor with a timer facility.

pub mod channel;
pub mod delay;
pub mod drain;
pub mod executor;
pub mod poll;
pub mod task;
pub mod waker;
