//! A manager of package sources cloned from the Arch User Repository.
//!
//! The library resolves what a user typed into the address of a remote
//! repository and the name of its local working copy, selects working copies
//! by name or pattern, and decides, step by step, what an installation or a
//! removal of many packages does next. Cloning, prompting and running external
//! programs are left to the caller, who performs each ordered action and
//! reports what came of it.

pub mod text;
pub mod location;
pub mod matcher;
pub mod batch;
pub mod install;
pub mod removal;
pub mod command;
pub mod search;
