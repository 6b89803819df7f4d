//! Rendering of the block a thread writes on abnormal termination.

use vstd::prelude::*;
use crate::store::ContextStore;
use crate::store::text_views;
use crate::store::texts_of;

verus! {

/// The given texts, each followed by a line break, joined in order.
pub open spec fn joined_lines(texts: Seq<Seq<char>>) -> Seq<char>
    decreases texts.len(),
{
    if texts.len() == 0 {
        Seq::empty()
    } else {
        joined_lines(texts.drop_last()) + texts.last() + seq!['\n']
    }
}

/// The full dump block for the entries `s`: the fixed header line, then one
/// line per live entry, oldest-assigned slot first.
pub open spec fn dump_text(s: Seq<(usize, Seq<char>)>) -> Seq<char> {
    "Panic context:\n"@ + joined_lines(texts_of(s))
}

proof fn lemma_joined_lines_step(t: Seq<Seq<char>>, i: int)
    requires
        0 <= i < t.len(),
    ensures
        joined_lines(t.take(i + 1)) == joined_lines(t.take(i)) + t[i] + seq!['\n'],
{
    let a = t.take(i + 1);
    assert(a.len() == i + 1);
    assert(a.drop_last() =~= t.take(i));
    assert(a.last() == t[i]);
}

/// Every dump block opens with the fixed header line; with no live entries
/// it is that header alone.
pub proof fn lemma_dump_starts_with_header(s: Seq<(usize, Seq<char>)>)
    ensures
        dump_text(s).len() >= "Panic context:\n"@.len(),
        dump_text(s).take("Panic context:\n"@.len() as int) == "Panic context:\n"@,
        s.len() == 0 ==> dump_text(s) == "Panic context:\n"@,
{
    assert(dump_text(s).take("Panic context:\n"@.len() as int) =~= "Panic context:\n"@);
    if s.len() == 0 {
        assert(texts_of(s).len() == 0);
        assert(dump_text(s) =~= "Panic context:\n"@);
    }
}

/// A newly created entry dumps behind everything created before it: filing
/// `(id, text)` at the end of the entries appends exactly one line, so lines
/// stand in creation order.
pub proof fn lemma_dump_appends_new_entry(s: Seq<(usize, Seq<char>)>, id: usize, text: Seq<char>)
    ensures
        dump_text(s.push((id, text))) == dump_text(s) + text + seq!['\n'],
{
    let t = texts_of(s).push(text);
    assert(texts_of(s.push((id, text))) =~= t);
    assert(t.drop_last() =~= texts_of(s));
    assert(t.last() == text);
    assert(joined_lines(t) == joined_lines(texts_of(s)) + text + seq!['\n']);
    assert("Panic context:\n"@ + joined_lines(t) =~= dump_text(s) + text + seq!['\n']);
}

/// Renders the dump block for the store's current entries. An embedding
/// program writes exactly this string to the diagnostic stream when a thread
/// terminates abnormally, before delegating to the previous handler, so the
/// handler's own report follows the block unchanged.
pub fn render_dump(store: &ContextStore) -> (out: String)
    ensures
        out@ == dump_text(store@),
{
    let mut out: String = "Panic context:\n".to_owned();
    let texts = store.snapshot_ordered();
    let mut i: usize = 0;
    while i < texts.len()
        invariant
            0 <= i <= texts@.len(),
            text_views(texts@) == texts_of(store@),
            out@ == "Panic context:\n"@ + joined_lines(texts_of(store@).take(i as int)),
        decreases texts@.len() - i,
    {
        out.append(texts[i].as_str());
        out.append("\n");
        proof {
            reveal_strlit("\n");
            assert("\n"@ =~= seq!['\n']);
            assert(text_views(texts@)[i as int] == texts@[i as int]@);
            lemma_joined_lines_step(texts_of(store@), i as int);
            assert(out@ =~= "Panic context:\n"@ + joined_lines(
                texts_of(store@).take(i + 1),
            ));
        }
        i = i + 1;
    }
    proof {
        assert(text_views(texts@).len() == texts@.len());
        assert(texts_of(store@).take(texts@.len() as int) =~= texts_of(store@));
    }
    out
}

} // verus!
