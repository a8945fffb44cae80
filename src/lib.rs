//! The evaluation core of a Sass-like stylesheet compiler: values, colors,
//! selector nesting, the variable scope chain, statement evaluation and the
//! CSS serializer.

pub mod number;
pub mod color;
pub mod selector;
pub mod value;
pub mod scope;
pub mod eval;
pub mod serializer;
pub mod compile;
