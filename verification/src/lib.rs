//! A parser for configuration text in the manner of TOML, with a document
//! model that keeps the order of the lines, and typed accessors.
//!
//! Text goes through a scanner ([`lexer`]) line by line; the tokens of a
//! line go through a family of resumable syntax parsers ([`parser`]), one
//! for each construct, which build the model ([`model`]); the lines that
//! can be read make the document ([`document`]), and the others give
//! diagnostics ([`diagnostic`]). [`toml::Toml::from_str`] does all of it.
//!
//! Every function is verified against a contract over the mathematical
//! content of its arguments. What holds of the library as a whole is
//! proved in [`laws`].

pub mod datetime;
pub mod diagnostic;
pub mod document;
pub mod laws;
pub mod lexer;
pub mod model;
pub mod numeric;
pub mod parser;
pub mod render;
pub mod text;
pub mod token;
pub mod toml;

pub use crate::document::TomlDocument;
pub use crate::toml::Toml;
