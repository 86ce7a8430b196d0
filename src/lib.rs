//! A rule-driven engine that turns mathematical markup into spoken Norwegian text
//! or Nemeth braille.
//!
//! The pipeline: `markup` reads the element tree, `canon` resolves it into a canonical
//! expression (`expr`), `speech` reads that expression by rules into words and pauses
//! (`render` folds them into text) and `braille` transcribes it. `prefs` holds the
//! preferences, `settings` takes a typed snapshot of them, `repo` resolves a language
//! and style to a rule set, and `session` ties these together.

pub mod text;
pub mod render;
pub mod markup;
pub mod prefs;
pub mod expr;
pub mod canon;
pub mod settings;
pub mod speech;
pub mod repo;
pub mod braille;
pub mod session;
