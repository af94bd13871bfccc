//! The nested entity types: tags, concepts and dictionary entries,
//! each with its modification counterpart.

pub mod cakupan;
pub mod kata_asing;
pub mod konsep;
pub mod lemma;
