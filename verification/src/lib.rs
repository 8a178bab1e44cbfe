//! Core logic of a small marketing site's contact form: input
//! sanitization, structural email validation, form validation with
//! fixed-priority error messages, and construction of the signal-patch
//! payload that drives the client-side UI state.

pub mod email;
pub mod form;
pub mod fragment;
pub mod settings;
pub mod signals;
pub mod text;
