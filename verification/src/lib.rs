//! The semantic core of the Lok compiler.
//!
//! A file goes through the following stages, each of which is a function
//! with a contract that Verus has proved:
//!
//! * [`lexer`] turns what the scanner reports into tokens;
//! * [`parser`] turns the tokens into a syntax tree ([`ast`]), as the
//!   grammar in [`grammar`] says;
//! * [`module`] and [`lower`] lower the syntax tree to a typed tree with
//!   resolved names ([`lir`]), as the model in [`model`] says, with the
//!   scopes and the function table of [`scope`];
//! * [`linearize`] flattens blocks, conditionals and loops into a graph of
//!   basic blocks ([`cfg`]), as the model in [`linear`] says;
//! * [`layout`] says how types are laid out on a target.
//!
//! [`frame`], [`closed`] and [`consistent`] hold what is proved of the
//! stages as a whole: lowering leaves scopes and loops balanced, the graphs
//! that linearization builds refer only to what is in them, and a lowered
//! body is never found inconsistent in what lowering has checked.

pub mod ast;
pub mod cfg;
pub mod closed;
pub mod consistent;
pub mod error;
pub mod frame;
pub mod grammar;
pub mod layout;
pub mod lexer;
pub mod linear;
pub mod linearize;
pub mod lir;
pub mod lower;
pub mod model;
pub mod module;
pub mod parser;
pub mod scope;
pub mod types;
