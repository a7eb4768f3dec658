//! What holds of the parser and of the machine as a whole, stated and proved.

pub mod parsing;
pub mod running;
