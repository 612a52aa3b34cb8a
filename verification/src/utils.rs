pub mod integer_utils;
pub mod matrix_utils;
pub mod text;
