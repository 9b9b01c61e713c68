//! Decisions behind giving memory back to the system while the main window is
//! out of sight.
//!
//! What deals with the operating system is written as steps, from a state and an
//! answer of the system to the next call to make. The calls themselves are made by
//! the application around this library.

pub mod generation;
pub mod idle_memory;
pub mod messages;
pub mod process_name;
pub mod process_tree;
pub mod window_visibility;
pub mod working_set;
