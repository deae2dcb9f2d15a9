//! Interactive shell front-end: command tokenizing and classification,
//! a directory browser, a bookmark index, repository status handling, the
//! session state machine and the terminal view layout.

pub mod text;
pub mod parser;
pub mod tokenizer;
pub mod browser;
pub mod bookmarks;
pub mod theme;
pub mod executor;
pub mod git;
pub mod session;
pub mod layout;
