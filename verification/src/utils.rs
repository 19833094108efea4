//! Text helpers shared by the command parsers.

pub mod number;
pub mod path_utils;
pub mod separated;
pub mod string_utils;
pub mod substring;
pub mod token_laws;
pub mod words;
