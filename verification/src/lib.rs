//! The decisions of a login manager: what its greeter, its daemon, its session
//! worker and its keyring helpers do with what they read, as verified
//! functions over plain values.
pub mod bus;
pub mod client;
pub mod daemon;
pub mod greeter;
pub mod helper;
pub mod invocation;
pub mod keyring;
pub mod number;
pub mod pam;
pub mod path;
pub mod protocol;
pub mod resume;
pub mod roles;
pub mod session;
pub mod setup;
pub mod split;
pub mod text;
pub mod unlock;
pub mod vt;
pub mod worker;
