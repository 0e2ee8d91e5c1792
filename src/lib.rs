//! Question-bank documents: numbered questions carrying tag groups and
//! text sections, and the single-pending-edit session that mutates them.
pub mod collections;
pub mod section;
pub mod question;
pub mod document;
pub mod numbers;
pub mod preset;
pub mod editor;
pub mod session;
pub mod laws;
