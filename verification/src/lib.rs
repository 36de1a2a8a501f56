//! Interactive, streaming text generation against an autoregressive
//! token-prediction engine.
//!
//! The crate is organised around two cores: the token sampling engine
//! ([`sampling`]) and the session/context controller ([`minmpt`]), with the
//! generation loops for the chat and story-writer front ends built on top of
//! them ([`chat`], [`story`]).  The engine's forward pass and the operator's
//! terminal are external collaborators; the logic that decides what to
//! evaluate, what to keep in context, what to emit and what to record is here,
//! with its behaviour stated in contracts.

pub mod minmpt;
pub mod transcript;
pub mod emit;
pub mod sampling;
pub mod chat;
pub mod story;
pub mod prompt;
pub mod tokenize;
