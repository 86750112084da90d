pub mod internal_representation;
pub mod horizontal;
pub mod leaf;
pub mod leaf_info;
pub mod operator;
pub mod extract;
pub mod finalize;
pub mod layout_laws;
pub mod printer;
pub mod conversion;
pub mod text;
pub mod parser;
pub mod context;
pub mod paint;
