//! A registry of native functions and modules for an embedded scripting
//! runtime, with a basic package of time-value operators.
pub mod value;
pub mod time_basic;
pub mod registry;
pub mod resolver;
