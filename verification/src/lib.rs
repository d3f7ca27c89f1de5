//! Locating and loading the `cli-templates.toml` file of dispatch-agent.
//!
//! The search for the file, the candidate paths it walks, the message that
//! lists them when nothing is found, the byte-order-mark handling of the file's
//! text and the defaults applied to the parsed templates are verified here.
pub mod candidates;
pub mod paths;
pub mod probe;
pub mod error;
pub mod search;
pub mod templates;
