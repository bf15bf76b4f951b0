//! Non-blocking queues: the command queue with its overflow policies and
//! statistics, the multi-producer single-consumer queue, signal sources,
//! permits for direct (micro) control, and the observer that counts what
//! happens under direct control.
pub mod command;
pub mod mpsc;
pub mod observer;
pub mod signal;
pub mod telemetry;
