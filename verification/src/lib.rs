//! A library for building text user interfaces: terminal cell geometry, text styles,
//! editable lines with history, scrollable logs and container layout helpers.
pub mod base;
pub mod widget;
pub mod input;
pub mod container;
pub mod signals;
