pub mod aws;
pub mod backoff;
pub mod container;
pub mod dhcp;
pub mod expand;
pub mod fs;
pub mod init;
pub mod logger;
pub mod login;
pub mod network;
pub mod rdev;
pub mod service;
pub mod spot;
pub mod system;
pub mod text;
pub mod uevent;
pub mod vmspec;
pub mod writable;
