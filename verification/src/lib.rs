//! A small expression-and-statement language, front to back: a scanner that
//! turns source text into tokens, a recursive-descent parser that builds an
//! abstract syntax tree, and a tree-walking evaluator with a single flat
//! variable environment. Each stage is specified by a recursive function over
//! mathematical views of its data, and the executable code is proved to
//! compute exactly that function.
pub mod ast_printer;
pub mod interpreter;
pub mod nums;
pub mod parser;
pub mod text;
pub mod scanner;
pub mod token;
