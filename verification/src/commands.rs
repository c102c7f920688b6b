//! The commands, one stage of the work each, and `sync`, which runs the
//! stages in order.

pub mod ask;
pub mod clone;
pub mod init;
pub mod install;
pub mod link;
pub mod render;
pub mod sync;
