//! The skill registry: the statements that it runs and what their rows hold.

pub mod binding_laws;
pub mod clock;
pub mod column_laws;
pub mod embedding;
pub mod evidence;
pub mod evidence_laws;
pub mod judgement_laws;
pub mod laws;
pub mod quality;
pub mod reading_laws;
pub mod record;
pub mod removal;
pub mod row;
pub mod row_laws;
pub mod search;
pub mod security;
pub mod sqlite;
pub mod statement;
pub mod table;
pub mod text_map;
pub mod tx;
pub mod usage;
pub mod usage_laws;
