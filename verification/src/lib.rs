//! Course sign-in core: the schedule of a day's classes, the decisions of the
//! resident sign-in process, and the shape of the upstream iclass exchanges.

pub mod app;
pub mod cli;
pub mod config;
pub mod text;
pub mod model;
pub mod schedule;
pub mod upstream;

