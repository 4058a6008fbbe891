//! Skill registry and agent-session decoding.

pub mod answer_laws;
pub mod cass;
pub mod error;
pub mod json;
pub mod places;
pub mod storage;
pub mod text;
pub mod view_laws;
