//! Session coordination for short-lived multiplayer party games.
//!
//! A session is created with a short numeric code, players join it by that
//! code over a persistent connection, and the session advances through a
//! fixed sequence of phases as players signal readiness, submit answers and
//! acknowledge the reveal. The registry maps codes to live sessions and
//! keeps codes unique among them.

pub mod game;
pub mod handler;
pub mod laws;
pub mod registry;
