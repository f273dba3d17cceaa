pub mod env;
pub mod errors;
pub mod laws;
pub mod store;
pub mod text;
pub mod values;
