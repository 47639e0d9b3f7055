//! The test runner: a file of HTTP tests, run in order, each one able to
//! hand values on to the ones after it.
pub mod textops;
pub mod stringmap;
pub mod document;
pub mod structures;
pub mod urls;
pub mod json;
pub mod test_case;
pub mod suite;
