//! A translator from a C syntax tree into a small class-based intermediate
//! language: structs become classes, basic types become short type names,
//! names get `$I_` and `$T_` prefixes, expressions are fully parenthesized,
//! a switch becomes a one-pass loop over an `if`/`else if` chain, and a
//! function that is only declared keeps an empty definition.
//!
//! `model` states what each translation step produces as a function from a
//! syntax node and a translation state to the text and the next state. Each
//! translation function is proved to agree with its model function for every
//! sequence of random tags that extends the tags it drew (untagged structs
//! and switch loops get random names). The model functions are opaque; each
//! function reveals only the ones it is proved against, and the functions are
//! grouped into modules so that no module reveals a model function that
//! another function of the same module only calls.
pub mod outside;
pub mod text;
pub mod ast;
pub mod state;
pub mod model;
pub mod leaves;
pub mod specifiers;
pub mod structs;
pub mod declarator_parts;
pub mod declarators;
pub mod init_declarators;
pub mod expressions;
pub mod operands;
pub mod control;
pub mod statements;
pub mod blocks;
pub mod declarations;
pub mod translate;
pub mod markers;
pub mod laws;
