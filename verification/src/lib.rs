//! Runs files of HTTP requests.
//!
//! A request file holds requests, each with its headers, its body and a
//! handler that is run on the response, and declarations of variables.
//! This crate holds what is decided between reading such a file and
//! printing what came of it:
//!
//! - [`parser`] reads the file, line by line, with the line shapes of
//!   [`line`];
//! - [`variable`] keeps the three tiers of variables and replaces the
//!   `{{name}}` placeholders of a text;
//! - [`http`] builds the view of a response that a handler is given;
//! - [`js`] holds the state that a handler works on through its `client`
//!   object, and what is left of its run;
//! - [`runner`] selects the requests of a run, resolves them, and counts
//!   what came of them;
//! - [`env`] picks the variables of an environment, and [`output`] words
//!   what is printed.
//!
//! Texts are sequences of characters throughout; [`text`] holds what the
//! other modules share of them.

pub mod bindings;
pub mod digits;
pub mod env;
pub mod error;
pub mod http;
pub mod js;
pub mod line;
pub mod number;
pub mod output;
pub mod parser;
pub mod runner;
pub mod text;
pub mod variable;
