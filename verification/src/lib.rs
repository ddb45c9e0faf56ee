pub mod archive;
pub mod cli;
pub mod paths;
pub mod scheduler;
pub mod transfer;
