//! What the commands decide, apart from the files they touch.

pub mod builder;
pub mod init;
pub mod serve;
