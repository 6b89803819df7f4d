//! Scoped entry handles: each owns exactly one slot of a context store.

use vstd::prelude::*;
use crate::store::ContextStore;
use crate::store::with_entry;
use crate::store::without_entry;

verus! {

/// A fixed-message breadcrumb. Creating it files its message in the store;
/// releasing it deletes the message again, so the breadcrumb is visible to a
/// dump only while the handle is live.
///
/// The handle must be released through [`PanicContext::release`] when its
/// scope ends; an embedding program wraps it in a scope-exit guard so the
/// release cannot be forgotten.
#[must_use]
pub struct PanicContext {
    id: usize,
}

/// A breadcrumb whose message is rewritten over time. Creating it only
/// reserves a slot; each [`UpdatablePanicContext::update`] files the prefix
/// followed by the new value under that slot, overwriting the previous text
/// in place.
///
/// Releasing this flavor removes nothing: once written, its last text stays
/// in the store for the rest of the thread's life and keeps appearing in
/// dumps. That keeps the store growing with long-dead context; it is kept
/// here because callers of the published interface may rely on the last
/// step text outliving the handle.
#[must_use]
pub struct UpdatablePanicContext {
    id: usize,
    prefix: &'static str,
}

impl PanicContext {
    /// The id of the slot this handle owns.
    pub closed spec fn entry_id(self) -> usize {
        self.id
    }

    /// Files `msg` as a new entry behind all existing ones and hands back
    /// the handle that owns the new slot.
    pub fn new(store: &mut ContextStore, msg: String) -> (ctx: PanicContext)
        requires
            old(store).wf(),
            old(store).next() < usize::MAX,
        ensures
            ctx.entry_id() == old(store).next(),
            final(store).wf(),
            final(store).next() == old(store).next() + 1,
            final(store)@ == old(store)@.push((ctx.entry_id(), msg@)),
    {
        let id = store.add_entry(Some(msg));
        PanicContext { id }
    }

    /// Deletes this handle's entry from the store; the slot's id is never
    /// handed out again.
    pub fn release(self, store: &mut ContextStore)
        requires
            old(store).wf(),
        ensures
            final(store).wf(),
            final(store).next() == old(store).next(),
            final(store)@ == without_entry(old(store)@, self.entry_id()),
    {
        store.remove_entry(self.id);
    }
}

impl UpdatablePanicContext {
    /// The id of the slot this handle owns.
    pub closed spec fn entry_id(self) -> usize {
        self.id
    }

    /// The prefix put before every updated value.
    pub closed spec fn prefix_view(self) -> Seq<char> {
        self.prefix@
    }

    /// Reserves a slot without filing any text yet and hands back the
    /// handle that owns it; `prefix` will precede every updated value.
    pub fn new(store: &mut ContextStore, prefix: &'static str) -> (ctx: UpdatablePanicContext)
        requires
            old(store).wf(),
            old(store).next() < usize::MAX,
        ensures
            ctx.entry_id() == old(store).next(),
            ctx.prefix_view() == prefix@,
            final(store).wf(),
            final(store).next() == old(store).next() + 1,
            final(store)@ == old(store)@,
    {
        let id = store.add_entry(None);
        UpdatablePanicContext { id, prefix }
    }

    /// Files the prefix followed by `value` as the current text of this
    /// handle's slot, overwriting whatever the slot held before. The entry
    /// keeps the position of its creation, however late the update comes.
    pub fn update(&self, store: &mut ContextStore, value: &str)
        requires
            old(store).wf(),
            self.entry_id() < old(store).next(),
        ensures
            final(store).wf(),
            final(store).next() == old(store).next(),
            final(store)@ == with_entry(
                old(store)@,
                self.entry_id(),
                self.prefix_view() + value@,
            ),
    {
        let mut buf = self.prefix.to_owned();
        buf.append(value);
        store.update_entry(self.id, buf);
    }

    /// The id of the slot this handle owns, as a value.
    pub fn slot_id(&self) -> (n: usize)
        ensures
            n == self.entry_id(),
    {
        self.id
    }
}

/// Reserves an updatable breadcrumb slot: shorthand for
/// [`UpdatablePanicContext::new`].
pub fn panic_context(store: &mut ContextStore, prefix: &'static str) -> (ctx:
    UpdatablePanicContext)
    requires
        old(store).wf(),
        old(store).next() < usize::MAX,
    ensures
        ctx.entry_id() == old(store).next(),
        ctx.prefix_view() == prefix@,
        final(store).wf(),
        final(store).next() == old(store).next() + 1,
        final(store)@ == old(store)@,
{
    UpdatablePanicContext::new(store, prefix)
}

} // verus!
