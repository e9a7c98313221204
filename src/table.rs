//! The intern table and the handles it gives out.
use vstd::prelude::*;

use crate::buffer::{byte_len, layout_fits, InternedData};
use crate::index::{index_entries, ContentIndex};

verus! {

/// Handle value reserved for the empty text; no slot ever has this number.
const EMPTY_ID: usize = usize::MAX;

/// A handle to an interned text: one word, copyable, compared as a number.
///
/// Within one table two handles are equal exactly when their texts are.
#[derive(Clone, Copy, Debug, PartialEq, Eq, Hash, Structural)]
pub struct FastStr {
    id: usize,
}

/// The texts of `texts`, with `s` appended unless it is empty or already
/// there.
pub open spec fn interned_texts(texts: Seq<Seq<char>>, s: Seq<char>) -> Seq<Seq<char>> {
    if s.len() == 0 || texts.contains(s) {
        texts
    } else {
        texts.push(s)
    }
}

/// A deduplicating store of texts: an append-only arena of buffers and a
/// hash index from text to arena slot.
pub struct InternTable {
    entries: Vec<InternedData>,
    index: ContentIndex,
}

impl FastStr {
    /// Whether this is the handle of the empty text.
    pub closed spec fn is_empty_handle(self) -> bool {
        self.id == EMPTY_ID
    }

    /// The handle of the empty text.
    pub fn empty() -> (r: FastStr)
        ensures
            r.is_empty_handle(),
    {
        FastStr { id: EMPTY_ID }
    }

    /// Interns `s` in `table`: the empty text gets the empty handle without
    /// looking at the table, any other text the table's handle for it.
    pub fn new(table: &mut InternTable, s: &str) -> (r: FastStr)
        requires
            old(table).wf(),
            layout_fits(byte_len(s@)),
        ensures
            InternTable::intern_post(*old(table), s@, *final(table), r),
            s@.len() == 0 ==> r.is_empty_handle() && *final(table) == *old(table),
    {
        if s.is_empty() {
            assert(s@ =~= Seq::<char>::empty());
            return FastStr::empty();
        }
        table.get_or_intern(s)
    }

    /// The text of this handle.
    pub fn as_str<'a>(&self, table: &'a InternTable) -> (r: &'a str)
        requires
            table.wf(),
            table.holds(*self),
        ensures
            r@ == table.text_of(*self),
    {
        if self.id == EMPTY_ID {
            proof {
                reveal_strlit("");
            }
            return "";
        }
        table.entries[self.id].as_str()
    }

    /// The length in bytes of this handle's text.
    pub fn len(&self, table: &InternTable) -> (r: usize)
        requires
            table.wf(),
            table.holds(*self),
        ensures
            r == byte_len(table.text_of(*self)),
    {
        if self.id == EMPTY_ID {
            return 0;
        }
        table.entries[self.id].len()
    }
}

impl InternTable {
    /// The interned texts, in slot order.
    pub closed spec fn texts(&self) -> Seq<Seq<char>> {
        self.entries@.map_values(|d: InternedData| d@)
    }

    /// Every slot holds a non-empty text that the index maps to that slot,
    /// and every index entry names the slot of its text.
    pub closed spec fn wf(&self) -> bool {
        let t = self.texts();
        let m = index_entries(self.index);
        &&& forall|i: int|
            0 <= i < t.len() ==> {
                &&& (#[trigger] t[i]).len() > 0
                &&& m.contains_key(t[i])
                &&& m[t[i]] == i
            }
        &&& forall|k: Seq<char>|
            #[trigger] m.contains_key(k) ==> (m[k] as int) < t.len() && t[m[k] as int] == k
    }

    /// Whether `h` is a handle that this table can resolve.
    pub closed spec fn holds(&self, h: FastStr) -> bool {
        h.id == EMPTY_ID || (h.id as int) < self.texts().len()
    }

    /// The text that `h` stands for in this table.
    pub closed spec fn text_of(&self, h: FastStr) -> Seq<char> {
        if h.id == EMPTY_ID {
            Seq::empty()
        } else {
            self.texts()[h.id as int]
        }
    }

    /// What interning `s` in `old` and getting `h` leaves: a well-formed
    /// table whose texts gained `s` if it was new, and a handle for `s`.
    pub open spec fn intern_post(old: InternTable, s: Seq<char>, new: InternTable, h: FastStr) -> bool {
        &&& new.wf()
        &&& new.texts() == interned_texts(old.texts(), s)
        &&& new.holds(h)
        &&& new.text_of(h) == s
    }

    /// An empty table.
    pub fn new() -> (r: InternTable)
        ensures
            r.wf(),
            r.texts() == Seq::<Seq<char>>::empty(),
    {
        let r = InternTable { entries: Vec::new(), index: ContentIndex::new() };
        assert(r.texts() =~= Seq::<Seq<char>>::empty());
        r
    }

    /// The number of distinct texts interned so far.
    pub fn len(&self) -> (r: usize)
        ensures
            r == self.texts().len(),
    {
        self.entries.len()
    }

    /// Whether this table can resolve `h`.
    pub fn resolves(&self, h: FastStr) -> (r: bool)
        ensures
            r == self.holds(h),
    {
        h.id == EMPTY_ID || h.id < self.entries.len()
    }

    /// Finds the handle of `s` without changing the table.
    pub fn lookup(&self, s: &str) -> (r: Option<FastStr>)
        requires
            self.wf(),
        ensures
            r is Some <==> (s@.len() == 0 || self.texts().contains(s@)),
            r matches Some(h) ==> self.holds(h) && self.text_of(h) == s@,
    {
        if s.is_empty() {
            return Some(FastStr::empty());
        }
        let found = self.index.get(s);
        // Reading the length bounds every slot number below `EMPTY_ID`.
        let _ = self.entries.len();
        proof {
            self.lemma_index_agrees(s@);
        }
        match found {
            Some(id) => Some(FastStr { id }),
            None => None,
        }
    }

    /// The handle of the non-empty text `s`, adding `s` to the table if it
    /// is not there yet.
    pub fn get_or_intern(&mut self, s: &str) -> (r: FastStr)
        requires
            old(self).wf(),
            s@.len() > 0,
            layout_fits(byte_len(s@)),
        ensures
            InternTable::intern_post(*old(self), s@, *final(self), r),
    {
        let found = self.index.get(s);
        let n = self.entries.len();
        proof {
            self.lemma_index_agrees(s@);
        }
        if let Some(id) = found {
            return FastStr { id };
        }
        let data = match InternedData::new(s) {
            Ok(d) => d,
            // The layout of `s` fits by the precondition, so this arm is
            // never taken; the postcondition could not hold here otherwise.
            Err(_) => {
                return FastStr::empty();
            },
        };
        let ghost t0 = self.texts();
        let ghost m0 = index_entries(self.index);
        let id = n;
        self.entries.push(data);
        let n_after = self.entries.len();
        self.index.insert(s.to_owned(), id);
        proof {
            let t = self.texts();
            let m = index_entries(self.index);
            assert(t =~= t0.push(s@));
            assert(m == m0.insert(s@, id));
            assert(id < n_after);
            assert forall|i: int| 0 <= i < t.len() implies {
                &&& (#[trigger] t[i]).len() > 0
                &&& m.contains_key(t[i])
                &&& m[t[i]] == i
            } by {
                if i < t0.len() {
                    assert(m0.contains_key(t0[i]));
                    assert(t0[i] != s@);
                }
            }
            assert forall|k: Seq<char>| #[trigger] m.contains_key(k) implies (m[k] as int) < t.len()
                && t[m[k] as int] == k by {
                if k != s@ {
                    assert(m0.contains_key(k));
                }
            }
        }
        FastStr { id }
    }

    /// The index has `s` exactly when a slot holds it, and then names that
    /// slot.
    proof fn lemma_index_agrees(&self, s: Seq<char>)
        requires
            self.wf(),
        ensures
            index_entries(self.index).contains_key(s) <==> self.texts().contains(s),
            index_entries(self.index).contains_key(s) ==> {
                let id = index_entries(self.index)[s];
                &&& (id as int) < self.texts().len()
                &&& self.texts()[id as int] == s
                &&& s.len() > 0
            },
    {
        let t = self.texts();
        let m = index_entries(self.index);
        if t.contains(s) {
            let i = choose|i: int| 0 <= i < t.len() && t[i] == s;
            assert(m.contains_key(t[i]));
        }
        if m.contains_key(s) {
            assert(t[m[s] as int] == s);
        }
    }
}

/// Within a well-formed table no two slots hold the same text, so each text
/// has at most one buffer.
pub proof fn lemma_one_buffer_per_text(t: InternTable)
    requires
        t.wf(),
    ensures
        forall|i: int, j: int|
            0 <= i < t.texts().len() && 0 <= j < t.texts().len() && #[trigger] t.texts()[i]
                == #[trigger] t.texts()[j] ==> i == j,
{
    let m = index_entries(t.index);
    assert forall|i: int, j: int|
        0 <= i < t.texts().len() && 0 <= j < t.texts().len() && #[trigger] t.texts()[i]
            == #[trigger] t.texts()[j] implies i == j by {
        assert(m[t.texts()[i]] == i);
        assert(m[t.texts()[j]] == j);
    }
}

/// Two handles that a well-formed table resolves to the same text are the
/// same handle.
pub proof fn lemma_one_handle_per_text(t: InternTable, h1: FastStr, h2: FastStr)
    requires
        t.wf(),
        t.holds(h1),
        t.holds(h2),
        t.text_of(h1) == t.text_of(h2),
    ensures
        h1 == h2,
{
    lemma_one_buffer_per_text(t);
    if h1.id != EMPTY_ID && h2.id != EMPTY_ID {
        assert(t.texts()[h1.id as int] == t.texts()[h2.id as int]);
    } else if h1.id != EMPTY_ID {
        assert(t.texts()[h1.id as int].len() > 0);
    } else if h2.id != EMPTY_ID {
        assert(t.texts()[h2.id as int].len() > 0);
    }
}

/// Interning never moves or changes a text already in the table: every
/// handle of the old table resolves to the same text in the new one.
pub proof fn lemma_handle_stable(t0: InternTable, s: Seq<char>, t1: InternTable, h: FastStr, g: FastStr)
    requires
        t0.wf(),
        InternTable::intern_post(t0, s, t1, h),
        t0.holds(g),
    ensures
        t1.holds(g),
        t1.text_of(g) == t0.text_of(g),
{
}

/// Interning the same text twice gives equal handles, the second call adds
/// nothing, and the handle's text is the text given.
pub proof fn lemma_intern_twice(
    t0: InternTable,
    s: Seq<char>,
    t1: InternTable,
    h1: FastStr,
    t2: InternTable,
    h2: FastStr,
)
    requires
        t0.wf(),
        InternTable::intern_post(t0, s, t1, h1),
        InternTable::intern_post(t1, s, t2, h2),
    ensures
        h1 == h2,
        t2.texts() == t1.texts(),
        t2.text_of(h2) == s,
{
    if s.len() > 0 && !t0.texts().contains(s) {
        assert(t1.texts()[t0.texts().len() as int] == s);
    }
    if s.len() > 0 {
        assert(t1.texts().contains(s));
    }
    lemma_handle_stable(t1, s, t2, h2, h1);
    lemma_one_handle_per_text(t2, h1, h2);
}

/// Interning the empty text leaves the table's texts as they were, and
/// gives the empty handle, whose text is empty and zero bytes long.
pub proof fn lemma_intern_empty(t0: InternTable, t1: InternTable, h: FastStr)
    requires
        t0.wf(),
        InternTable::intern_post(t0, Seq::empty(), t1, h),
    ensures
        t1.texts() == t0.texts(),
        h.is_empty_handle(),
        t1.text_of(h) == Seq::<char>::empty(),
        byte_len(t1.text_of(h)) == 0,
{
    if h.id != EMPTY_ID {
        assert(t1.texts()[h.id as int].len() > 0);
    }
    assert(byte_len(Seq::<char>::empty()) == 0) by {
        reveal_with_fuel(vstd::utf8::encode_utf8, 1);
    }
}

/// After interning `s`, the handle's text is `s` and its length is the
/// byte length of `s`.
pub proof fn lemma_round_trip(t0: InternTable, s: Seq<char>, t1: InternTable, h: FastStr)
    requires
        t0.wf(),
        InternTable::intern_post(t0, s, t1, h),
    ensures
        t1.holds(h),
        t1.text_of(h) == s,
        byte_len(t1.text_of(h)) == byte_len(s),
{
}

/// Interning two different texts, one after the other, gives two different
/// handles, and the first keeps its text.
pub proof fn lemma_distinct_texts(
    t0: InternTable,
    s1: Seq<char>,
    t1: InternTable,
    h1: FastStr,
    s2: Seq<char>,
    t2: InternTable,
    h2: FastStr,
)
    requires
        t0.wf(),
        InternTable::intern_post(t0, s1, t1, h1),
        InternTable::intern_post(t1, s2, t2, h2),
        s1 != s2,
    ensures
        h1 != h2,
        t2.text_of(h1) == s1,
        t2.text_of(h2) == s2,
{
    lemma_handle_stable(t1, s2, t2, h2, h1);
}

} // verus!
