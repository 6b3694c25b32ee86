//! Verified kernel of a constraint-projection engine.
//!
//! Given a state, an attempted change and a set of geometric constraints, the
//! engine proposes the nearest valid states. This crate holds everything in
//! that pipeline that is ordering, selection and control, stated over binary64
//! bit patterns and proved: comparison and clamping, box projection and its
//! laws, candidate assembly and ranking, the cyclic projection's schedule and
//! loop, the suggestion pipeline, state classification and the contract
//! checks. Rounding arithmetic is the caller's part: its results enter as bit
//! patterns, or it is handed in as functions.

pub mod aida;
pub mod candidates;
pub mod constants;
pub mod constraints;
pub mod explain;
pub mod intent;
pub mod linalg;
pub mod primitives;
pub mod projection;
pub mod rank;
pub mod scalar;
pub mod text;
pub mod verify;
