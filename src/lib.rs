//! A store of instruction / input / output training examples: two file
//! codecs (a JSON array and line-delimited JSON), per-record editing state,
//! and a paginated, editable dataset with dirty and save-in-flight tracking.
pub mod codec;
pub mod errors;
pub mod instruction;
pub mod instructions;
pub mod json;
pub mod text;
