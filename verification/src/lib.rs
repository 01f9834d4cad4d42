//! The verified core of a desktop task manager.
//!
//! Its main part is a supervisor for locally run services: [`services`]
//! keeps the process table and a bounded log store per service, [`state`]
//! describes it as a state machine and proves what holds of every state it
//! can reach, and [`command`] splits a command string into a program and its
//! arguments. Beside it stand the rules for projects ([`projects`], [`git`]),
//! for tasks ([`tasks`], [`optimization`]) and for queries that only read
//! ([`database_browser`]).
//!
//! The crate never touches a process, a file, a repository or a database.
//! Every operation that needs one is split in two: a function that decides
//! what is to be done, and a function that takes what was found and records
//! it.
mod clock;
pub mod command;
pub mod database_browser;
pub mod git;
pub mod model;
pub mod optimization;
pub mod projects;
pub mod services;
pub mod state;
pub mod tasks;
pub mod text;
