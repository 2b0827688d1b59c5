//! Decision logic of an agent front end.

pub mod approval;
pub mod bytes;
pub mod elicitation_form;
pub mod js_repl;
pub mod json;
pub mod numbers;
pub mod sandbox_policy;
pub mod sleep_inhibitor;
pub mod string_map;
pub mod terminal_title;
pub mod text;
pub mod title_setup;
pub mod tools;
pub mod user_input;
