pub mod driver;
pub mod errors;
pub mod ir;
pub mod laws;
pub mod reference;
pub mod specification;
pub mod sub;
pub mod text;
pub mod translate;
pub mod values;
