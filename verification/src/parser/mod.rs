pub mod ast;
pub mod gen;
pub mod grammar;
pub mod landing;
pub mod model;
pub mod parser;

pub use ast::{BinOp, Expr, Node, Pair, Stmt, UnOp};
pub use gen::{Compiler, VarInfo};
pub use model::CompileError;
pub use parser::Parser;
