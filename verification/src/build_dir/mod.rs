pub mod compiler;
pub mod dependencies;
pub mod executables;
pub mod linker;
