//! Verified core of the zerOS build tooling: bit-field layouts, runnable-code
//! parameters, target specifications, build-script helpers and the xtask
//! driver's decisions, each stated over plain values.

pub mod text;
pub mod bitfield;
pub mod runnable;
pub mod cases;
pub mod exprs;
pub mod buildrs;
pub mod arch;
pub mod target_spec;
pub mod options;
pub mod qemu;
pub mod configure;
pub mod pattern;
pub mod layout;
pub mod tasks;
pub mod zeros_build;
pub mod limine;
pub mod term;
pub mod troll;
pub mod random;
pub mod static_assert;
