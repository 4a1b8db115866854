//! Pre-fill a Marketplace app approval submission from a Forge app manifest.
pub mod answers;
pub mod code_analysis;
pub mod command;
pub mod evidence;
pub mod facts;
pub mod flags;
pub mod layout;
pub mod lines;
pub mod listing;
pub mod manifest;
pub mod questionnaire;
pub mod render;
pub mod report;
pub mod text;
pub mod yaml;
