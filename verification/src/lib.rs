//! Codepop's core: prompt building, response interpretation, cache naming and
//! pruning, configuration defaults, shortcut parsing and the decisions of the
//! analysis flow, each with its contract.

pub mod text;
pub mod i18n;
pub mod json;
pub mod paths;
pub mod config;
pub mod cache;
pub mod shortcut;
pub mod selection;
pub mod analysis;
pub mod gemini;
