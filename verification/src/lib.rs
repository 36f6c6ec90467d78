//! A compiler from Sass (SCSS) to CSS, with its behaviour proved.
//!
//! The heart of the library is the algebra of values ([`value`],
//! [`rational`], [`unit`], [`colors`]), the operators on them ([`arith`],
//! [`order`]), their evaluation in nested scopes ([`eval`],
//! [`variablescope`], [`functions`], [`mapping`]) and the way they are
//! written as CSS ([`format`], [`quoting`]). Around it stand the reading of
//! source text
//! ([`parser`], [`sass`], [`stylesheet`]) and the writing of whole
//! stylesheets ([`compile`]).
//!
//! Every function states what it returns over a model of its arguments:
//! a value is modelled by [`value::ValueView`], a number by
//! [`rational::Ratio`], a scope by [`variablescope::ScopeView`], and text
//! by its sequence of characters. What holds of all values is proved in
//! [`laws`] and [`settled`].
pub mod arith;
pub mod colors;
pub mod compile;
pub mod error;
pub mod eval;
pub mod format;
pub mod functions;
pub mod laws;
pub mod mapping;
pub mod numtheory;
pub mod operator;
pub mod order;
pub mod parser;
pub mod quoting;
pub mod rational;
pub mod sass;
pub mod settled;
pub mod stylesheet;
pub mod text;
pub mod unit;
pub mod value;
pub mod variablescope;

pub use compile::compile_scss;
pub use format::OutputStyle;
