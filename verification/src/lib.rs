//! Rewrites a structured source module into one of several canonical page
//! archetypes, inserting or replacing boilerplate declarations while
//! preserving everything else verbatim.

pub mod cli;
pub mod model;
pub mod props;
pub mod template;
pub mod transform;
pub mod render;
pub mod scan;
pub mod text;
