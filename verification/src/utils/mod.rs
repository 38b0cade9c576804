pub mod decimal;
pub mod decode;
pub mod json;
pub mod random;
pub mod text;
pub mod time;
