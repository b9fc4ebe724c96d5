//! Counts the deployable units ("canisters") declared in a `dfx.json`
//! project manifest and tallies them by their declared `type` label.

pub mod analyzer;
pub mod json;
pub mod parse;

pub use analyzer::ManifestError;
pub use analyzer::analyze_canisters;
pub use analyzer::canister_type_label;
pub use analyzer::canisters_of;
pub use analyzer::entry_labels;
pub use json::Json;
pub use parse::parse_manifest;
