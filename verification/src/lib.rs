//! Resolves test selectors into the shell commands of the test frameworks
//! that claim them.
pub mod adapter;
pub mod bytes;
pub mod config;
pub mod environment;
pub mod executor;
pub mod probe;
pub mod runner;
pub mod selector_match;
pub mod shell;
pub mod test_file;
pub mod test_index;
pub mod test_selector;
pub mod text;
pub mod utils;
