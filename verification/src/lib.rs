//! Core logic of `tasc`, a command-line manager for hierarchical to-do lists.
//!
//! Tasks live in a plain-text store, one task per line, in the form
//! `<mark> <depth> <text>`: a mark character (`x` done, `o` open), a
//! base-ten depth (1 = top level), and free-form text.  Nesting is encoded
//! purely by depth and line order: a task owns every immediately following
//! line of strictly greater depth.
//!
//! This crate holds the verified part: parsing the lines, the tree-depth
//! bookkeeping, and the transforms behind each command (`list`, `add`,
//! `mark`, `unmark`, `remove`, `purge`, `clear`).  Each command function
//! takes the store's lines as plain values and returns the replacement
//! lines, leaving the reading, rewriting and atomic renaming of the store
//! file to the surrounding binary.

pub mod commands;
pub mod error;
pub mod laws;
pub mod line;
pub mod num;
pub mod render;
pub mod tree;
