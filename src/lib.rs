//! A small credential store: validation of new accounts, one-way password
//! digests, an account collection with unique usernames, and the register /
//! login operations built on them.

pub mod hasher;
pub mod error;
pub mod validator;
pub mod store;
pub mod service;
pub mod laws;
