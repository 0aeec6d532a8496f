//! FTP server authentication: accounts and the login decision.

pub mod server;

pub use server::{Accounts, FtpAuth, Login};
