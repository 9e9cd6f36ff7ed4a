pub mod args;
pub mod array;
pub mod closure;
pub mod number;
pub mod opcode;
pub mod table;
pub mod text;
pub mod utils;
pub mod value;

pub use array::Array;
pub use closure::Closure;
pub use opcode::{Opcode, Opmode};
pub use table::Table;
pub use value::{RustFunc, Type, Val, Value};
