//! Reading source text.
pub mod roundtrip;
pub mod scss;
pub mod strings;
pub mod util;
pub mod value;
