pub mod code;
pub mod env;
pub mod error;
pub mod laws;
pub mod machine;
pub mod ops;
pub mod run;
pub mod show;
pub mod state;

pub use env::Env;
pub use error::RuntimeError;
pub use machine::VM;
pub use state::{CallInfo, NativeCallInfo, Step};
