//! Authentication core: email validation, password digests, session tokens,
//! an account and session store, and the signup / signin / signout / validate
//! flows built on them.
pub mod text;
pub mod email;
pub mod password;
pub mod token;
pub mod store;
pub mod cookie;
pub mod service;
pub mod laws;
