//! Constant folding over a model of Rust expressions: an expression is
//! evaluated to a constant value where that is possible without running
//! the program.
pub mod ast;
pub mod value;
pub mod ops;
pub mod fold;
pub mod laws;

pub use ast::is_negative;
pub use fold::{constant, fold_constant};
pub use value::{Constant, ConstantVariant, FloatWidth, Folding, Order};
