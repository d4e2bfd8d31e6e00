//! Removal of tracking parameters from the URLs found in a text.
//!
//! The crate holds the rules and decisions of the cleaner: compiling provider
//! rules, matching a URL against them, filtering its query parameters, the
//! pre-passes that replace a URL by its canonical form, and the choice of what
//! is worth reporting. Fetching documents and talking to the message service
//! is left to the program that uses it.

pub mod cleaner;
pub mod inbox;
pub mod pattern;
pub mod pipeline;
pub mod pro_api;
pub mod providers;
pub mod rewriter;
pub mod utils_api;
pub mod web_url;
