pub mod generation;
pub mod ids;
pub mod json;
pub mod laws;
pub mod records;
pub mod selection;
pub mod session;
pub mod text;
pub mod validate;
