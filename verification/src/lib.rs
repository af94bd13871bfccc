//! Change-diffing and reconciliation engine for a structured dictionary.
//!
//! A dictionary entry (`Lemma`) holds concepts (`Konsep`), each tagged
//! with usage contexts (`Cakupan`) and foreign-word equivalents
//! (`KataAsing`).  Given an `old` tree as read from storage and a `new`
//! tree supplied by a caller, `modify_into` computes a structured patch
//! describing attach/detach/modify operations at every nesting level, and
//! the submission methods turn that patch into an ordered plan of storage
//! operations for an executor to run against the backend.

pub mod changes;
pub mod engine;
pub mod errors;
pub mod interface;
pub mod items;
pub mod laws;
pub mod metatype;
pub mod operations;
pub mod states;
pub mod views;
