pub mod number;
pub mod parser;
pub mod xml;

pub use parser::{parse_svd, SvdDevice};
