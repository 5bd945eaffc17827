//! The logic behind a small form that writes desktop entry files: trimming
//! and blank detection of the text fields, the semicolon separated category
//! list and its check list, the text of the file that is written, and what each
//! event of the form leads to.

pub mod categories;
pub mod entry;
pub mod split;
pub mod text;
pub mod window;
