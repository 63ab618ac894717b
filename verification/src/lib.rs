//! A shrinking circular arena and the reactions of the bodies that strike it.
//!
//! The arena wall is a regular polygon whose radius decreases with elapsed
//! time; lengths and durations are kept in exact integer units so that the
//! wall's radius is an exact function of the time that has passed. Bodies that
//! begin to touch another collider get a new visual asset and a one-shot
//! audio cue, each drawn from a fixed pool.

pub mod ring;
pub mod boundary;
pub mod pools;
pub mod reaction;
