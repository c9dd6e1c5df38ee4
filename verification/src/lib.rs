pub mod basic_op;
pub mod compound_op;
pub mod interpreter;
pub mod laws;
pub mod interpreter_op;
pub mod pipeline;
pub mod transpile_c;
pub mod window;
