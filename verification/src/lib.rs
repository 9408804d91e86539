//! A verified Brainfuck virtual machine.
//!
//! The machine interprets a sentinel-terminated sequence of instruction
//! codes over a fixed tape of 30000 signed 64-bit cells, consuming an
//! input sequence and producing a byte output stream.  Its behaviour is
//! pinned down by a small-step specification (`machine`), against which
//! the executable interpreter (`vm`) is verified; general laws about the
//! machine are proved in `laws`.

pub mod laws;
pub mod machine;
pub mod vm;

pub use machine::ErrorKind;
pub use machine::Profile;
pub use vm::RunResult;
pub use vm::VmError;
pub use vm::program_from_bytes;
pub use vm::run;
