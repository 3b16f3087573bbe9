//! Interns text, handing back small copyable identifiers.
//!
//! An identifier is a non-zero integer. Every distinct text value gets exactly
//! one identifier, and the text can always be read back from it. Interned text
//! is never freed: the cache only grows, so this suits short-lived processes.

mod id;
mod text_map;
mod cache;
mod laws;

pub use id::{StrID, IdCounter, empty_id};
pub use cache::{StrCache, intern_post};
pub use laws::{law_entries_persist, law_known_text_keeps_id, law_intern_twice, law_distinct_texts,
    law_round_trip, law_empty_is_default, is_run, law_same_text_converges,
    law_distinct_texts_in_any_order};
