//! Scope-bounded panic breadcrumbs.
//!
//! A program can note "where it currently is" in a per-thread context store;
//! the notes cost nothing during normal execution and are rendered as a block
//! of lines only when the program terminates abnormally. Entries are owned by
//! scoped handles, so a note disappears as soon as its scope is left.
//!
//! The store, the handles, the once-only installation decision and the dump
//! rendering live here, fully specified; an embedding program supplies the
//! thread-local cell, the process-wide flag and the actual termination hook.

mod dump;
mod handle;
mod hook;
mod store;

pub use dump::dump_text;
pub use dump::joined_lines;
pub use dump::lemma_dump_appends_new_entry;
pub use dump::lemma_dump_starts_with_header;
pub use dump::render_dump;
pub use handle::PanicContext;
pub use handle::UpdatablePanicContext;
pub use handle::panic_context;
pub use hook::ensure_initialized;
pub use hook::flag_after;
pub use hook::install_decision;
pub use hook::install_decisions;
pub use hook::lemma_installed_exactly_once;
pub use store::ContextStore;
pub use store::entries_sorted;
pub use store::has_entry;
pub use store::lemma_scope_release;
pub use store::lemma_update_keeps_positions;
pub use store::lemma_update_twice;
pub use store::text_views;
pub use store::texts_of;
pub use store::with_entry;
pub use store::without_entry;
