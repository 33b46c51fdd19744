//! Locate files through user scripts, rewrite the candidates through regex
//! transforms, and prepare the editor invocation that opens them.

pub mod config;
pub mod placeholders;
pub mod text;
pub mod transforms;
pub mod runner;
pub mod launch;
