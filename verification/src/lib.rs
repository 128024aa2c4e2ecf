//! A task-list service: routines that stamp out task lists from a model list of
//! tasks, the rules by which the server answers its requests, and the requests
//! that the command line sends.
pub mod text;
pub mod model;
pub mod command;
pub mod error;
pub mod db;
pub mod server;
pub mod cli;
