//! Approximate network matching, integration and enrichment for linear
//! networks in the plane.
//!
//! Given a source and a target network of polylines, the library finds for
//! each target feature the source features that run along it, in the same
//! direction and within a narrow corridor, with the lengths they share, and
//! it lays out the transfer of a numeric attribute from the source features
//! to the target features by those lengths.
//!
//! Numbers are held as binary64 bit patterns. The library tests and orders
//! them; it does no arithmetic on them. What takes arithmetic (the length of
//! a feature, an angle, a distance, a sum) is measured by the caller.

pub mod binary64;
pub mod engine;
pub mod geometry;
pub mod get_matches;
pub mod interpolate;
pub mod matching;
pub mod overlap;
pub mod pairing;
pub mod store;

pub use engine::{Anime, AnimeError};
pub use store::{MatchCandidate, MatchesMap, TargetIndex};
