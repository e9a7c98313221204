//! A process-wide string interner: equal text always resolves to the same
//! small, copyable handle.
//!
//! The table keeps one length-prefixed buffer per distinct text in an
//! append-only arena, and a hash index from text to arena slot. A handle is
//! the slot number, or a sentinel for the empty text.
use vstd::prelude::*;

mod buffer;
mod index;
mod table;

pub use buffer::{byte_len, layout_fits, padded_size, BufferLayout, InternedData, LayoutError};
pub use table::{
    interned_texts, lemma_distinct_texts, lemma_handle_stable, lemma_intern_empty,
    lemma_intern_twice, lemma_one_buffer_per_text, lemma_one_handle_per_text, lemma_round_trip,
    FastStr, InternTable,
};
