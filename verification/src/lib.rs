//! Renders parameterized text templates: named variables are resolved from
//! providers (constants, the process environment, prompts, shell commands,
//! menus), nested by their dotted names and substituted into a template body.
//! Shell execution is gated by a trust level.
//!
//! The library decides; the outside answers. Environment, shell, files and
//! terminal are reached through a [`session::Session`], which records every
//! exchange, so each function says what it returns and what it exchanged for
//! every answer that may come back.
//!
//! - [`config`]: templates, variables, options and helpers.
//! - [`shell`]: trust, and what the run of a command amounts to.
//! - [`backend`]: the backend that asks the user, and the one that never does.
//! - [`session`]: the terminal and the system of a render, with their trace.
//! - [`resolve`]: from the definition of a variable to its value.
//! - [`namespace`]: from flat dotted names to a tree of values.
//! - [`json`], [`template`]: the tree handed to the template engine.
//! - [`version`]: the configuration's version against the program's.
//! - [`render`]: a whole render, from the arguments to the text.
//! - [`args`]: what the command line gives as text.

pub mod error;
pub mod text;
pub mod namespace;
pub mod shell;
pub mod session;
pub mod json;
pub mod config;
pub mod template;
pub mod backend;
pub mod resolve;
pub mod version;
pub mod render;
pub mod args;
