//! A byte-transparent echo service core and a code-point listing tool.

pub mod echo;
pub mod listing;
pub mod log;
pub mod number;
pub mod service;
pub mod session;
pub mod startup;
pub mod supervisor;
pub mod text;
pub mod unicode;
