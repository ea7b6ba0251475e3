//! A Gopher server's request logic: resolving selectors against a root
//! directory, building directory menus, routing scripts under `cgi-bin`,
//! and deciding, step by step, what a connection answers.
pub mod cgi;
pub mod config;
pub mod handler;
pub mod laws;
pub mod log;
pub mod menu;
pub mod path;
pub mod text;
