//! The parsing core of a small interactive shell: a quoting-aware tokenizer
//! and the resolution of an input line to a builtin or an external command.
//!
//! * [`utils::string_utils`] holds the tokenizer, written down as an automaton
//!   over the characters of a line, and [`utils::token_laws`] what follows
//!   from that definition.
//! * [`commands`] holds the commands and their resolution. Resolution reads
//!   neither the environment nor the disk: the caller hands in the search
//!   path and answers each probe that a [`commands::external::Search`] asks
//!   for.
//! * [`command`] holds a plain keyword parser for the interactive loop.
//!
//! Every function is verified against its contract. The one assumption about
//! the standard library that the crate adds is the contract of `String::push`
//! in [`utils::string_utils`].

pub mod command;
pub mod commands;
pub mod utils;
