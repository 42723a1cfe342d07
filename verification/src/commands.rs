//! What the commands decide and compute. Reading and writing files,
//! fetching and prompting are left to the caller, which hands in what it
//! read and carries out what comes back.

pub mod add;
pub mod clean;
pub mod init;
pub mod install;
pub mod publish;
