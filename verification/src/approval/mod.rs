//! Requests that the user approves or denies.

pub mod form;
pub mod keys;
pub mod request;
pub mod overlay;
