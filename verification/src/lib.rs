//! Runtime core for a small stack-based interpreter of bibliography-style
//! (BST) programs: growable shared text buffers used as interpreter
//! workspace, a bounded pool of persistent global string variables, and a
//! typed literal stack with its diagnostic-producing operations.

pub mod buffer;
pub mod collab;
pub mod decimal;
pub mod diag;
pub mod exec;
pub mod global;
pub mod unstable_opts;
