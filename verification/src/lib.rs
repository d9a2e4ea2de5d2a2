//! Ephemeral verification-code service.
//!
//! The heart of the crate is [`store::VerificationStore`]: an in-memory table
//! of time-boxed numeric codes keyed by a normalized identity string, with
//! at-most-one-active-code-per-key semantics. Around it stand the code
//! generator, a wall-clock reader, the request-validation rules, the
//! password-reset wizard's step decisions, and the module colour/label
//! assignment used by the scheduling views.

mod clock;
pub mod codegen;
pub mod laws;
pub mod requests;
pub mod reset_flow;
pub mod store;
pub mod text;
pub mod visuals;
