//! Text-input (IME) integration core for a desktop windowing shell.
//!
//! The crate models the protocol between an application-owned text document
//! and an operating system's input-method editor: the edit-lock capability a
//! window exposes for one input field, the selection/composition state
//! machine, and the translation between the document's UTF-8 code-unit
//! indexing and the OS input method's UTF-16 code-unit indexing.
//!
//! Document text is represented as a sequence of UTF-8 code units (bytes);
//! every range handed across the protocol is measured either in those units
//! or in the OS's 16-bit units, and the conversions between the two are
//! verified against a byte-level model of UTF-8.

pub mod actions;
pub mod adapter;
pub mod commands;
pub mod document;
pub mod encoding;
pub mod geometry;
pub mod handler;
pub mod session;
pub mod simulate;
pub mod token;
pub mod translate;
