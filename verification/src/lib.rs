//! A library for interacting with the SELinux kernel subsystem.
//!
//! Two independent components are offered:
//!
//! - [`has_selinuxfs`]: detection of kernel support for `selinuxfs`,
//!   the control filesystem through which global SELinux state is
//!   read and modified.
//! - [`sys::SELinuxFs`]: a typed handle over a mounted `selinuxfs`,
//!   with accessors for enforcing mode, policy version and the
//!   two-phase (pending/commit) boolean protocol.

pub mod codec;
pub mod errors;
mod fsops;
pub mod kernel;
pub mod names;
pub mod sys;
pub mod text;

pub use kernel::has_selinuxfs;
