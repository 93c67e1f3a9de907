//! A minimal operating-system core: a path-addressed in-memory filesystem,
//! a syscall dispatch layer over a register-level trampoline model, and the
//! plain-value computations behind segment-descriptor and userspace setup.
pub mod fmt;
pub mod gdt;
pub mod fs_init;
pub mod input;
pub mod laws;
pub mod terminal;
pub mod yield_now;
pub mod paths;
pub mod ramfs;
pub mod shell;
pub mod strutil;
pub mod syscall;
pub mod trampoline;
pub mod userspace;
pub mod vfs;
