//! Turns an annotated kernel function into a syscall entry point plus a
//! descriptor record `{ id, name, handler }` for the syscall table section.
//!
//! The attribute text `id = <int>` is checked by a small verified grammar, the
//! 32-byte name token is derived from the function's identifier, and the
//! descriptor is built from both. Rendering the result as tokens is left to the
//! procedural-macro front end.

pub mod args;
pub mod descriptor;
pub mod expand;
pub mod name_token;
mod outside;

pub use args::{ArgsError, SysCallArgs};
pub use descriptor::{entry_symbol, SyscallDescriptor};
pub use expand::{merlin_syscall, Rejection, SyscallError, SyscallExpansion};
pub use name_token::name_token;
