//! Rules of the FPLX fantasy football platform: scoring, squad validation,
//! transfers, contest entries, leaderboards, wallet login and live sync.
use vstd::prelude::*;

pub mod scoring;
pub mod squad;
pub mod transfers;
pub mod text;
pub mod outside;
pub mod league;
pub mod points;
pub mod auth;
pub mod live;
pub mod response;
pub mod seqs;

verus! {
} // verus!
