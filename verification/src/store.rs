//! The per-thread context store: an ordered collection of breadcrumb entries.

use vstd::prelude::*;

verus! {

/// One breadcrumb: a sequence-assigned id and its current text.
struct Entry {
    id: usize,
    text: String,
}

/// An ordered collection of context entries, one instance per thread.
///
/// Ids are handed out from a counter that only grows and are never reused,
/// so keeping the entries sorted by id keeps them in creation order, no
/// matter in which order their texts are later rewritten.
pub struct ContextStore {
    next_id: usize,
    entries: Vec<Entry>,
}

/// The ids of `s` are strictly increasing.
pub open spec fn entries_sorted(s: Seq<(usize, Seq<char>)>) -> bool {
    forall|i: int, j: int| 0 <= i < j < s.len() ==> (#[trigger] s[i]).0 < (#[trigger] s[j]).0
}

/// Some entry of `s` carries the id `id`.
pub open spec fn has_entry(s: Seq<(usize, Seq<char>)>, id: usize) -> bool {
    exists|i: int| 0 <= i < s.len() && (#[trigger] s[i]).0 == id
}

/// `s` with the entry for `id` overwritten in place, or, if no entry carries
/// `id` yet, with `(id, text)` inserted where it keeps the ids ascending.
pub open spec fn with_entry(
    s: Seq<(usize, Seq<char>)>,
    id: usize,
    text: Seq<char>,
) -> Seq<(usize, Seq<char>)>
    decreases s.len(),
{
    if s.len() == 0 {
        seq![(id, text)]
    } else if s[0].0 < id {
        seq![s[0]] + with_entry(s.drop_first(), id, text)
    } else if s[0].0 == id {
        seq![(id, text)] + s.drop_first()
    } else {
        seq![(id, text)] + s
    }
}

/// The texts of `s`, in the order the entries stand in `s`.
pub open spec fn texts_of(s: Seq<(usize, Seq<char>)>) -> Seq<Seq<char>> {
    s.map_values(|p: (usize, Seq<char>)| p.1)
}

/// The views of a vector of strings, element by element.
pub open spec fn text_views(v: Seq<String>) -> Seq<Seq<char>> {
    v.map_values(|t: String| t@)
}

/// `s` with the first entry for `id` removed; `s` itself if none carries `id`.
pub open spec fn without_entry(s: Seq<(usize, Seq<char>)>, id: usize) -> Seq<(usize, Seq<char>)>
    decreases s.len(),
{
    if s.len() == 0 {
        s
    } else if s[0].0 == id {
        s.drop_first()
    } else {
        seq![s[0]] + without_entry(s.drop_first(), id)
    }
}

proof fn lemma_with_entry_at(s: Seq<(usize, Seq<char>)>, id: usize, text: Seq<char>, i: int)
    requires
        0 <= i <= s.len(),
        forall|k: int| 0 <= k < i ==> (#[trigger] s[k]).0 < id,
        i < s.len() ==> s[i].0 >= id,
    ensures
        (i < s.len() && s[i].0 == id) ==> with_entry(s, id, text) == s.update(i, (id, text)),
        !(i < s.len() && s[i].0 == id) ==> with_entry(s, id, text) == s.insert(i, (id, text)),
    decreases i,
{
    if i == 0 {
        if s.len() == 0 {
            assert(with_entry(s, id, text) =~= s.insert(0, (id, text)));
        } else if s[0].0 == id {
            assert(with_entry(s, id, text) =~= s.update(0, (id, text)));
        } else {
            assert(s[0].0 > id);
            assert(with_entry(s, id, text) =~= s.insert(0, (id, text)));
        }
    } else {
        assert(s[0].0 < id);
        let rest = s.drop_first();
        assert(forall|k: int| 0 <= k < rest.len() ==> #[trigger] rest[k] == s[k + 1]);
        lemma_with_entry_at(rest, id, text, i - 1);
        if i < s.len() && s[i].0 == id {
            assert(with_entry(s, id, text) == seq![s[0]] + with_entry(rest, id, text));
            assert(seq![s[0]] + rest.update(i - 1, (id, text)) =~= s.update(i, (id, text)));
        } else {
            assert(with_entry(s, id, text) == seq![s[0]] + with_entry(rest, id, text));
            assert(seq![s[0]] + rest.insert(i - 1, (id, text)) =~= s.insert(i, (id, text)));
        }
    }
}

proof fn lemma_without_entry_at(s: Seq<(usize, Seq<char>)>, id: usize, i: int)
    requires
        0 <= i <= s.len(),
        forall|k: int| 0 <= k < i ==> (#[trigger] s[k]).0 != id,
        i < s.len() ==> s[i].0 == id,
    ensures
        i < s.len() ==> without_entry(s, id) == s.remove(i),
        i == s.len() ==> without_entry(s, id) == s,
    decreases i,
{
    if i == 0 {
        if s.len() == 0 {
            assert(without_entry(s, id) =~= s);
        } else {
            assert(without_entry(s, id) =~= s.remove(0));
        }
    } else {
        assert(s[0].0 != id);
        let rest = s.drop_first();
        assert(forall|k: int| 0 <= k < rest.len() ==> #[trigger] rest[k] == s[k + 1]);
        lemma_without_entry_at(rest, id, i - 1);
        if i < s.len() {
            assert(seq![s[0]] + rest.remove(i - 1) =~= s.remove(i));
        } else {
            assert(seq![s[0]] + rest =~= s);
        }
    }
}

/// Updating a slot that is already filled overwrites its text in place:
/// the collection keeps its length, every other entry is untouched, and the
/// rewritten entry stays at the position its id was assigned.
pub proof fn lemma_update_keeps_positions(s: Seq<(usize, Seq<char>)>, id: usize, text: Seq<char>)
    requires
        entries_sorted(s),
        has_entry(s, id),
    ensures
        with_entry(s, id, text).len() == s.len(),
        forall|k: int| 0 <= k < s.len() ==> with_entry(s, id, text)[k] == (if (#[trigger] s[k]).0
            == id {
            (id, text)
        } else {
            s[k]
        }),
{
    let j = choose|j: int| 0 <= j < s.len() && (#[trigger] s[j]).0 == id;
    assert forall|k: int| 0 <= k < j implies (#[trigger] s[k]).0 < id by {
        assert(s[k].0 < s[j].0);
    }
    lemma_with_entry_at(s, id, text, j);
    assert forall|k: int| 0 <= k < s.len() implies with_entry(s, id, text)[k] == (if (
    #[trigger] s[k]).0 == id {
        (id, text)
    } else {
        s[k]
    }) by {
        if k != j && s[k].0 == id {
            if k < j {
                assert(s[k].0 < s[j].0);
            } else {
                assert(s[j].0 < s[k].0);
            }
        }
    }
}

/// Updating the same slot twice leaves only the later text: the earlier
/// update has no effect on the final collection.
pub proof fn lemma_update_twice(
    s: Seq<(usize, Seq<char>)>,
    id: usize,
    first_text: Seq<char>,
    second_text: Seq<char>,
)
    ensures
        with_entry(with_entry(s, id, first_text), id, second_text) == with_entry(
            s,
            id,
            second_text,
        ),
    decreases s.len(),
{
    if s.len() == 0 {
        let inner = with_entry(s, id, first_text);
        assert(inner == seq![(id, first_text)]);
        assert(inner[0].0 == id);
        assert(with_entry(inner, id, second_text) =~= with_entry(s, id, second_text));
    } else if s[0].0 < id {
        let rest = s.drop_first();
        lemma_update_twice(rest, id, first_text, second_text);
        let inner = seq![s[0]] + with_entry(rest, id, first_text);
        assert(with_entry(s, id, first_text) == inner);
        assert(inner[0] == s[0]);
        assert(inner.drop_first() =~= with_entry(rest, id, first_text));
        assert(with_entry(inner, id, second_text) == seq![s[0]] + with_entry(
            inner.drop_first(),
            id,
            second_text,
        ));
        assert(with_entry(s, id, second_text) == seq![s[0]] + with_entry(rest, id, second_text));
    } else if s[0].0 == id {
        let inner = seq![(id, first_text)] + s.drop_first();
        assert(with_entry(s, id, first_text) == inner);
        assert(inner[0].0 == id);
        assert(inner.drop_first() =~= s.drop_first());
        assert(with_entry(inner, id, second_text) == seq![(id, second_text)]
            + inner.drop_first());
    } else {
        let inner = seq![(id, first_text)] + s;
        assert(with_entry(s, id, first_text) == inner);
        assert(inner[0].0 == id);
        assert(inner.drop_first() =~= s);
        assert(with_entry(inner, id, second_text) == seq![(id, second_text)]
            + inner.drop_first());
    }
}

/// A fixed entry pushed behind entries that do not carry its id and removed
/// again leaves the collection exactly as it was: a scope that creates a
/// breadcrumb and releases it leaves no trace.
pub proof fn lemma_scope_release(s: Seq<(usize, Seq<char>)>, id: usize, text: Seq<char>)
    requires
        !has_entry(s, id),
    ensures
        without_entry(s.push((id, text)), id) == s,
    decreases s.len(),
{
    let p = s.push((id, text));
    if s.len() == 0 {
        assert(p[0].0 == id);
        assert(without_entry(p, id) =~= s);
    } else {
        assert(p[0] == s[0]);
        assert(s[0].0 != id) by {
            if s[0].0 == id {
                assert(has_entry(s, id));
            }
        }
        let rest = s.drop_first();
        assert(p.drop_first() =~= rest.push((id, text)));
        assert(!has_entry(rest, id)) by {
            if has_entry(rest, id) {
                let w = choose|w: int| 0 <= w < rest.len() && (#[trigger] rest[w]).0 == id;
                assert(s[w + 1].0 == id);
                assert(has_entry(s, id));
            }
        }
        lemma_scope_release(rest, id, text);
        assert(without_entry(p, id) == seq![p[0]] + without_entry(p.drop_first(), id));
        assert(seq![s[0]] + rest =~= s);
    }
}

impl View for ContextStore {
    type V = Seq<(usize, Seq<char>)>;

    /// The entries as (id, text) pairs, oldest-assigned id first.
    closed spec fn view(&self) -> Seq<(usize, Seq<char>)> {
        self.entries@.map_values(|e: Entry| (e.id, e.text@))
    }
}

impl ContextStore {
    /// The id the next created slot will receive.
    pub closed spec fn next(self) -> usize {
        self.next_id
    }

    /// Ids ascend, and every id present was assigned before `next`.
    pub open spec fn wf(self) -> bool {
        &&& entries_sorted(self@)
        &&& forall|i: int| 0 <= i < self@.len() ==> (#[trigger] self@[i]).0 < self.next()
    }

    /// An empty store whose counter starts at zero.
    pub fn new() -> (store: ContextStore)
        ensures
            store.wf(),
            store@ == Seq::<(usize, Seq<char>)>::empty(),
            store.next() == 0,
    {
        let store = ContextStore { next_id: 0, entries: Vec::new() };
        proof {
            assert(store@ =~= Seq::<(usize, Seq<char>)>::empty());
        }
        store
    }

    /// Allocates the next id and, when an initial text is given, appends the
    /// new entry behind all existing ones.
    pub fn add_entry(&mut self, value: Option<String>) -> (id: usize)
        requires
            old(self).wf(),
            old(self).next() < usize::MAX,
        ensures
            id == old(self).next(),
            final(self).wf(),
            final(self).next() == old(self).next() + 1,
            final(self)@ == (match value {
                Option::Some(v) => old(self)@.push((id, v@)),
                Option::None => old(self)@,
            }),
    {
        let id = self.next_id;
        self.next_id = self.next_id + 1;
        match value {
            Option::Some(v) => {
                let ghost text_view = v@;
                let ghost prev = self@;
                self.entries.push(Entry { id, text: v });
                proof {
                    assert(self@ =~= prev.push((id, text_view)));
                }
            },
            Option::None => {
                proof {
                    assert(self@ =~= old(self)@);
                }
            },
        }
        id
    }

    /// Writes `text` as the current value of the slot `id`: overwrites the
    /// entry in place when the slot is filled, otherwise files the entry at
    /// the position its id was assigned, between older and younger entries.
    pub fn update_entry(&mut self, id: usize, text: String)
        requires
            old(self).wf(),
            id < old(self).next(),
        ensures
            final(self).wf(),
            final(self).next() == old(self).next(),
            final(self)@ == with_entry(old(self)@, id, text@),
    {
        let mut i: usize = 0;
        while i < self.entries.len() && self.entries[i].id < id
            invariant
                *self == *old(self),
                0 <= i <= self.entries@.len(),
                forall|k: int| 0 <= k < i ==> (#[trigger] self@[k]).0 < id,
            decreases self.entries@.len() - i,
        {
            i = i + 1;
        }
        proof {
            lemma_with_entry_at(old(self)@, id, text@, i as int);
        }
        let ghost prev = self@;
        if i < self.entries.len() && self.entries[i].id == id {
            self.entries[i] = Entry { id, text };
            proof {
                assert(self@ =~= prev.update(i as int, (id, text@)));
                assert forall|p: int, q: int|
                    0 <= p < q < self@.len() implies (self@[p]).0 < (self@[q]).0 by {
                    assert(self@[p].0 == prev[p].0);
                    assert(self@[q].0 == prev[q].0);
                }
                assert forall|p: int| 0 <= p < self@.len() implies (self@[p]).0 < self.next() by {
                    assert(self@[p].0 == prev[p].0);
                }
            }
        } else {
            self.entries.insert(i, Entry { id, text });
            proof {
                assert(self@ =~= prev.insert(i as int, (id, text@)));
                assert forall|p: int, q: int|
                    0 <= p < q < self@.len() implies (self@[p]).0 < (self@[q]).0 by {
                    if p < i {
                        assert(prev[p].0 < id);
                    }
                    if q > i {
                        assert(self@[q] == prev[q - 1]);
                        if (i as int) < prev.len() {
                            assert(prev[i as int].0 > id);
                        }
                    }
                }
                assert forall|p: int| 0 <= p < self@.len() implies (self@[p]).0 < self.next() by {
                    if p < i {
                        assert(self@[p] == prev[p]);
                    } else if p > i {
                        assert(self@[p] == prev[p - 1]);
                    }
                }
            }
        }
    }

    /// Deletes the entry for the slot `id`; does nothing when no entry
    /// carries that id.
    pub fn remove_entry(&mut self, id: usize)
        requires
            old(self).wf(),
        ensures
            final(self).wf(),
            final(self).next() == old(self).next(),
            final(self)@ == without_entry(old(self)@, id),
    {
        let mut i: usize = 0;
        while i < self.entries.len() && self.entries[i].id != id
            invariant
                *self == *old(self),
                0 <= i <= self.entries@.len(),
                forall|k: int| 0 <= k < i ==> (#[trigger] self@[k]).0 != id,
            decreases self.entries@.len() - i,
        {
            i = i + 1;
        }
        proof {
            lemma_without_entry_at(old(self)@, id, i as int);
        }
        let ghost prev = self@;
        if i < self.entries.len() {
            self.entries.remove(i);
            proof {
                assert(self@ =~= prev.remove(i as int));
                assert forall|p: int, q: int|
                    0 <= p < q < self@.len() implies (self@[p]).0 < (self@[q]).0 by {
                    assert(self@[p] == (if p < i { prev[p] } else { prev[p + 1] }));
                    assert(self@[q] == (if q < i { prev[q] } else { prev[q + 1] }));
                }
                assert forall|p: int| 0 <= p < self@.len() implies (self@[p]).0 < self.next() by {
                    assert(self@[p] == (if p < i { prev[p] } else { prev[p + 1] }));
                }
            }
        }
    }

    /// The current texts, oldest-assigned slot first: what a dump will show.
    pub fn snapshot_ordered(&self) -> (texts: Vec<String>)
        ensures
            text_views(texts@) == texts_of(self@),
    {
        let mut texts: Vec<String> = Vec::new();
        let mut i: usize = 0;
        while i < self.entries.len()
            invariant
                0 <= i <= self.entries@.len(),
                text_views(texts@) == texts_of(self@.take(i as int)),
            decreases self.entries@.len() - i,
        {
            let ghost prior = texts@;
            let t = self.entries[i].text.clone();
            proof {
                assert(t@ == self@[i as int].1);
            }
            texts.push(t);
            i = i + 1;
            proof {
                assert(texts@ == prior.push(texts@[prior.len() as int]));
                assert(text_views(prior).len() == prior.len());
                assert(prior.len() == i - 1);
                assert forall|k: int| 0 <= k < texts@.len() implies text_views(texts@)[k]
                    == texts_of(self@.take(i as int))[k] by {
                    assert(self@.take(i as int)[k] == self@[k]);
                    if k < prior.len() {
                        assert(texts@[k] == prior[k]);
                        assert(self@.take(i - 1)[k] == self@[k]);
                        assert(text_views(prior)[k] == texts_of(self@.take(i - 1))[k]);
                        assert(texts_of(self@.take(i - 1))[k] == self@[k].1);
                        assert(texts_of(self@.take(i as int))[k] == self@[k].1);
                    } else {
                        assert(texts@[k]@ == self@[k].1);
                    }
                }
                assert(text_views(texts@) =~= texts_of(self@.take(i as int)));
            }
        }
        proof {
            assert(self@.take(self@.len() as int) =~= self@);
        }
        texts
    }

    /// The id the next created slot will receive, as a value.
    pub fn next_id(&self) -> (n: usize)
        ensures
            n == self.next(),
    {
        self.next_id
    }
}

} // verus!
