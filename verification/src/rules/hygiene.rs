//! Rules on the hygiene of the source.

pub mod no_nested_functions;
pub mod explicit_return_type;
pub mod no_abbreviations;
pub mod prefer_readonly;
pub mod no_console;
pub mod no_then_chain;
pub mod no_debugger;
pub mod no_promise_executor_return;
pub mod no_await_in_loop;
pub mod no_eval;
