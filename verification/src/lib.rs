//! The lint pipeline of a web service for wiki markup.
//!
//! A client sends source text and gets back either the findings of a
//! battery of lint rules or the error of the stage that failed. This
//! library holds what that takes besides the parser, the rules and the HTTP
//! framework themselves:
//!
//! - [`pipeline`]: the course of a request, stage by stage, as a state
//!   machine that a driver runs;
//! - [`parsing`], [`guard`] and [`tokens`]: the parse stage, the texts it
//!   is run on, and the one order in which a parse error is reported;
//! - [`outcome`]: the result of a request, findings or error;
//! - [`battery`]: the examples of the rules, in the order of the rules;
//! - [`cache`] and [`formula`]: the bounded cache in front of the formula
//!   checker, and the check of one formula through it;
//! - [`settings`]: what is configured when the process starts;
//! - [`http`]: the usage text and the shape of a JSON reply.

pub mod battery;
pub mod cache;
pub mod formula;
pub mod guard;
pub mod http;
pub mod outcome;
pub mod parsing;
pub mod pipeline;
pub mod settings;
pub mod tokens;
