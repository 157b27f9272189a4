//! Loader and interpreter for the IR bytecode files of the B compiler.
pub mod ir;
pub mod reader;
pub mod format;
pub mod loader;
pub mod interp;
pub mod laws;
pub mod interp_laws;
pub mod format_laws;
