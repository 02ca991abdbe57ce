//! Concurrent upload of files to a fixed HTTP endpoint, as far as it is
//! decided rather than performed: how a run is configured, which file
//! starts when, what the reply of the server means, and what is written
//! for each file. Sending the requests and writing the lines is left to
//! the program that uses this library.

pub mod batch;
pub mod config;
pub mod decimal;
pub mod json;
pub mod orchestrator;
pub mod outcome;
pub mod present;
pub mod reply;
pub mod task;
