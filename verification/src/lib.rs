//! A dotfile manager: it collects answers to configured questions, links and
//! renders the files that depend on them, and runs install tasks in order.

pub mod args;
pub mod commands;
pub mod config;
pub mod context;
pub mod path;
pub mod template;
pub mod text;
pub mod walk;

