//! Core of a terminal system monitor: the model of one metrics snapshot, the
//! text that the dashboard shows for it, the keys that stop the monitor and
//! the order of the steps in each refresh cycle.
pub mod cycle;
pub mod dashboard;
pub mod decimal;
pub mod input;
