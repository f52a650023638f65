//! Files that arrive in a download directory are matched against a list of
//! courses by the name they carry and the address they came from, and a
//! command is proposed for each: move it to the directory of its course, or
//! leave it to a manual decision. The commands wait in a journal until a
//! review pass confirms and applies them.
//!
//! The library decides and computes; it touches neither the file system nor
//! the terminal. Paths are texts with `/` between their components.

pub mod classify;
pub mod cli;
pub mod command;
pub mod event;
pub mod journal;
pub mod monitor;
pub mod path;
pub mod provenance;
pub mod review;
pub mod setup;
pub mod term;
pub mod text;
pub mod text_map;
