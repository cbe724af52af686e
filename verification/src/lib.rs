//! The logic of a Discord bot for programming communities: running code
//! through an execution service, looking up packages on crates.io, npm and
//! PyPI, searching Sphinx documentation inventories, and ANSI colour
//! samples. Every reply is built here as a plain value; sending it is left
//! to the program around the library.
pub mod ansi;
pub mod embed;
pub mod inventory;
pub mod laws;
pub mod map;
pub mod message;
pub mod packages;
pub mod pattern;
pub mod rtfm;
pub mod run;
pub mod text;
