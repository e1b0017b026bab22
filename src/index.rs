use crate::clock::{now, ts_lt, Timestamp};
use crate::entry::{EntryView, IndexEntry};
use crate::paths::{file_name, file_name_of, file_stem, file_stem_of, same_text};
use crate::query::{digits_value, id_text, is_id_query, lemma_digits_value_nonneg, Query};
use vstd::prelude::*;

verus! {

/// The abstract content of a slot sequence: each slot empty or holding an entry.
pub open spec fn slots_view(v: Seq<Option<IndexEntry>>) -> Seq<Option<EntryView>> {
    v.map_values(|o: Option<IndexEntry>| match o {
        Some(e) => Some(e@),
        None => None,
    })
}

/// The abstract value of an optional entry.
pub open spec fn opt_view(o: Option<IndexEntry>) -> Option<EntryView> {
    match o {
        Some(e) => Some(e@),
        None => None,
    }
}

/// Whether every occupied slot holds the entry whose id is that slot's position.
pub open spec fn ids_match_slots(s: Seq<Option<EntryView>>) -> bool {
    forall|i: int| 0 <= i < s.len() && #[trigger] s[i] is Some ==> s[i]->Some_0.id == i
}

/// Whether slot `j` is occupied.
pub open spec fn live(s: Seq<Option<EntryView>>, j: int) -> bool {
    0 <= j < s.len() && s[j] is Some
}

/// Whether `i` is the slot that an addition fills: the first empty slot, or the
/// position just past the end when every slot is occupied.
pub open spec fn is_first_free(s: Seq<Option<EntryView>>, i: int) -> bool {
    &&& 0 <= i <= s.len()
    &&& forall|j: int| 0 <= j < i ==> #[trigger] live(s, j)
    &&& i < s.len() ==> s[i] is None
}

/// The slots once `e` is placed at position `i` (an empty slot or one past the end).
pub open spec fn placed(s: Seq<Option<EntryView>>, i: int, e: EntryView) -> Seq<Option<EntryView>> {
    if i < s.len() {
        s.update(i, Some(e))
    } else {
        s.push(Some(e))
    }
}

/// The entry in slot `id`, if that slot exists and is occupied.
pub open spec fn entry_at(s: Seq<Option<EntryView>>, id: int) -> Option<EntryView> {
    if 0 <= id < s.len() {
        s[id]
    } else {
        None
    }
}

/// The slots once slot `id` is cleared (unchanged when `id` is out of range).
pub open spec fn cleared(s: Seq<Option<EntryView>>, id: int) -> Seq<Option<EntryView>> {
    if 0 <= id < s.len() {
        s.update(id, None)
    } else {
        s
    }
}

/// The slots once the entry in slot `id` is stamped with time `t` (unchanged when
/// that slot is absent or empty).
pub open spec fn stamped(s: Seq<Option<EntryView>>, id: int, t: Timestamp) -> Seq<Option<EntryView>> {
    if live(s, id) {
        s.update(id, Some(EntryView { last_opened: t, ..s[id]->Some_0 }))
    } else {
        s
    }
}

/// Whether slot `j` holds an entry whose path has file name `n`.
pub open spec fn name_hit(s: Seq<Option<EntryView>>, j: int, n: Seq<char>) -> bool {
    live(s, j) && file_name_of(s[j]->Some_0.path) == Some(n)
}

/// Whether slot `j` holds an entry whose path has file stem `n`.
pub open spec fn stem_hit(s: Seq<Option<EntryView>>, j: int, n: Seq<char>) -> bool {
    live(s, j) && file_stem_of(s[j]->Some_0.path) == Some(n)
}

/// Whether slot `i` is the one that name `n` resolves to: the first slot whose file
/// name is `n`, or, when no file name is `n`, the first slot whose file stem is `n`.
pub open spec fn resolves_by_name(s: Seq<Option<EntryView>>, n: Seq<char>, i: int) -> bool {
    ||| name_hit(s, i, n) && forall|j: int| 0 <= j < i ==> !#[trigger] name_hit(s, j, n)
    ||| (forall|j: int| !#[trigger] name_hit(s, j, n)) && stem_hit(s, i, n) && forall|j: int|
        0 <= j < i ==> !#[trigger] stem_hit(s, j, n)
}

/// Whether `r` is what a lookup of name `n` gives: the entry of the slot that `n`
/// resolves to, or `None` when no entry has `n` as file name or file stem.
pub open spec fn name_lookup(s: Seq<Option<EntryView>>, n: Seq<char>, r: Option<EntryView>) -> bool {
    match r {
        Some(e) => resolves_by_name(s, n, e.id) && s[e.id] == Some(e),
        None => (forall|j: int| !#[trigger] name_hit(s, j, n)) && (forall|j: int|
            !#[trigger] stem_hit(s, j, n)),
    }
}

/// Whether `r` is what query text `q` gives: an id lookup when `q` reads as an
/// id (an optional `+` and decimal digits, whatever their value), a name lookup
/// otherwise.
pub open spec fn query_lookup(s: Seq<Option<EntryView>>, q: Seq<char>, r: Option<EntryView>) -> bool {
    if is_id_query(q) {
        r == entry_at(s, digits_value(id_text(q)))
    } else {
        name_lookup(s, q, r)
    }
}

/// Recency order of entries: by time last opened, earliest first; entries opened
/// at the same instant by id.
pub open spec fn recency_lt(a: EntryView, b: EntryView) -> bool {
    ts_lt(a.last_opened, b.last_opened) || (a.last_opened == b.last_opened && a.id < b.id)
}

/// Whether `r` lists the occupied slots' entries of `s` in recency order, earliest
/// first, cut to the first `limit` of them when a limit is given: `r` is strictly
/// ordered, holds only entries of `s`, and every entry of `s` is in `r` unless `r`
/// is full and that entry comes after all of `r`.
pub open spec fn recency_listing(s: Seq<Option<EntryView>>, limit: Option<usize>, r: Seq<IndexEntry>) -> bool {
    &&& forall|a: int, b: int| 0 <= a < b < r.len() ==> recency_lt(#[trigger] r[a]@, #[trigger] r[b]@)
    &&& forall|m: int| 0 <= m < r.len() ==> live(s, #[trigger] r[m].id as int) && s[r[m].id as int] == Some(r[m]@)
    &&& forall|j: int| #[trigger] live(s, j) ==> {
        ||| exists|m: int| 0 <= m < r.len() && #[trigger] r[m]@ == s[j]->Some_0
        ||| limit == Some(r.len() as usize) && forall|m: int| 0 <= m < r.len() ==> recency_lt(#[trigger] r[m]@, s[j]->Some_0)
    }
    &&& limit is Some ==> r.len() <= limit->Some_0
}

/// Whether `a` comes before `b` in recency order.
fn recent_before(a: &IndexEntry, b: &IndexEntry) -> (r: bool)
    ensures
        r == recency_lt(a@, b@),
{
    a.last_opened.is_before(&b.last_opened) || (a.last_opened == b.last_opened && a.id < b.id)
}

/// Why a stored slot sequence cannot be taken as a catalog.
#[derive(Clone, Copy, Debug, PartialEq, Eq, Structural)]
pub enum CatalogError {
    /// Slot `slot` holds an entry whose id is `id`, not `slot`.
    MisplacedEntry { slot: usize, id: usize },
}

/// Whether slot `i` is the first that holds an entry with another id than its position.
pub open spec fn first_misplaced(s: Seq<Option<EntryView>>, i: int) -> bool {
    &&& live(s, i)
    &&& s[i]->Some_0.id != i
    &&& forall|j: int| 0 <= j < i && #[trigger] live(s, j) ==> s[j]->Some_0.id == j
}

/// The catalog: a sequence of slots where slot `i` is empty or holds the entry
/// with id `i`.
#[derive(Debug)]
pub struct Index {
    entries: Vec<Option<IndexEntry>>,
}

impl View for Index {
    type V = Seq<Option<EntryView>>;

    closed spec fn view(&self) -> Seq<Option<EntryView>> {
        slots_view(self.entries@)
    }
}

impl Default for Index {
    /// The empty catalog.
    fn default() -> (r: Index)
        ensures
            r@ == Seq::<Option<EntryView>>::empty(),
            r.wf(),
    {
        Index { entries: Vec::new() }
    }
}

impl Index {
    /// Well-formedness: every occupied slot holds the entry with its position as id.
    pub open spec fn wf(&self) -> bool {
        ids_match_slots(self@)
    }

    /// Looks up an entry by id: the entry in that slot, or `None` when the slot is
    /// out of range or empty.
    pub fn get_by_id(&self, id: usize) -> (r: Option<IndexEntry>)
        ensures
            opt_view(r) == entry_at(self@, id as int),
    {
        if id < self.entries.len() {
            match &self.entries[id] {
                Some(e) => Some(e.duplicate()),
                None => None,
            }
        } else {
            None
        }
    }

    /// Looks up an entry by name: the first entry, in id order, whose path has file
    /// name `name`; failing that, the first whose path has file stem `name`.
    pub fn get_by_name(&self, name: &str) -> (r: Option<IndexEntry>)
        requires
            self.wf(),
        ensures
            name_lookup(self@, name@, opt_view(r)),
    {
        let n = self.entries.len();
        let mut i: usize = 0;
        while i < n
            invariant
                self.wf(),
                n == self@.len(),
                i <= n,
                forall|j: int| 0 <= j < i ==> !#[trigger] name_hit(self@, j, name@),
            decreases n - i,
        {
            if let Some(e) = &self.entries[i] {
                if let Some(f) = file_name(e.path.as_str()) {
                    if same_text(f, name) {
                        assert(self@[i as int] == Some(e@));
                        return Some(e.duplicate());
                    }
                }
            }
            i = i + 1;
        }
        assert(forall|j: int| !#[trigger] name_hit(self@, j, name@));
        let mut i: usize = 0;
        while i < n
            invariant
                self.wf(),
                n == self@.len(),
                i <= n,
                forall|j: int| !#[trigger] name_hit(self@, j, name@),
                forall|j: int| 0 <= j < i ==> !#[trigger] stem_hit(self@, j, name@),
            decreases n - i,
        {
            if let Some(e) = &self.entries[i] {
                if let Some(f) = file_stem(e.path.as_str()) {
                    if same_text(f, name) {
                        assert(self@[i as int] == Some(e@));
                        return Some(e.duplicate());
                    }
                }
            }
            i = i + 1;
        }
        None
    }

    /// Resolves a raw query: text that reads as a decimal id is looked up by id
    /// (and finds nothing when the id is beyond every slot), any other text by name.
    pub fn get(&self, query: &str) -> (r: Option<IndexEntry>)
        requires
            self.wf(),
        ensures
            query_lookup(self@, query@, opt_view(r)),
    {
        let n = self.entries.len();
        assert(self@.len() == n);
        let c = Query::classify(query);
        proof {
            if is_id_query(query@) {
                lemma_digits_value_nonneg(id_text(query@));
            }
        }
        match c {
            Query::ById(id) => self.get_by_id(id),
            Query::IdTooLarge => {
                assert(digits_value(id_text(query@)) > n);
                None
            },
            Query::ByName(name) => self.get_by_name(name.as_str()),
        }
    }

    /// The slots in order, tombstones included, as they are written out.
    pub fn slots(&self) -> (r: &Vec<Option<IndexEntry>>)
        ensures
            slots_view(r@) == self@,
    {
        &self.entries
    }

    /// Rebuilds a catalog from stored slots, which it keeps as they are. Fails,
    /// naming the first such slot, when an occupied slot holds an entry whose id
    /// differs from its position.
    pub fn from_slots(slots: Vec<Option<IndexEntry>>) -> (r: Result<Index, CatalogError>)
        ensures
            r is Ok <==> ids_match_slots(slots_view(slots@)),
            match r {
                Ok(c) => c.wf() && c@ == slots_view(slots@),
                Err(CatalogError::MisplacedEntry { slot, id }) => first_misplaced(slots_view(slots@), slot as int)
                    && slots_view(slots@)[slot as int]->Some_0.id == id,
            },
    {
        let n = slots.len();
        let mut i: usize = 0;
        while i < n
            invariant
                n == slots@.len(),
                i <= n,
                forall|j: int| 0 <= j < i && #[trigger] live(slots_view(slots@), j) ==> slots_view(slots@)[j]->Some_0.id == j,
            decreases n - i,
        {
            if let Some(e) = &slots[i] {
                assert(slots_view(slots@)[i as int] == Some(e@));
                if e.id != i {
                    return Err(CatalogError::MisplacedEntry { slot: i, id: e.id });
                }
            }
            i = i + 1;
        }
        assert forall|j: int| 0 <= j < slots_view(slots@).len() && #[trigger] slots_view(slots@)[j] is Some implies slots_view(slots@)[j]->Some_0.id == j by {
            assert(live(slots_view(slots@), j));
        }
        Ok(Index { entries: slots })
    }

    /// Opens a catalog from what is stored: the empty catalog when nothing is
    /// stored, else the catalog rebuilt from the stored slots.
    pub fn from_stored(stored: Option<Vec<Option<IndexEntry>>>) -> (r: Result<Index, CatalogError>)
        ensures
            match stored {
                None => r is Ok && r->Ok_0@ == Seq::<Option<EntryView>>::empty() && r->Ok_0.wf(),
                Some(v) => (r is Ok <==> ids_match_slots(slots_view(v@))) && match r {
                    Ok(c) => c.wf() && c@ == slots_view(v@),
                    Err(CatalogError::MisplacedEntry { slot, id }) => first_misplaced(slots_view(v@), slot as int)
                        && slots_view(v@)[slot as int]->Some_0.id == id,
                },
            },
    {
        match stored {
            None => Ok(Index::default()),
            Some(v) => Index::from_slots(v),
        }
    }

    /// The live entries in recency order, earliest opened first (entries opened at
    /// the same instant by id), cut to the first `limit` when a limit is given.
    /// The order is ascending on purpose: with a limit, the least recently opened
    /// entries are the ones kept.
    pub fn sorted_most_recent(&self, limit: Option<usize>) -> (r: Vec<IndexEntry>)
        requires
            self.wf(),
        ensures
            recency_listing(self@, limit, r@),
    {
        let n = self.entries.len();
        let mut out: Vec<IndexEntry> = Vec::new();
        let mut i: usize = 0;
        while i < n
            invariant
                self.wf(),
                n == self@.len(),
                i <= n,
                forall|a: int, b: int| 0 <= a < b < out@.len() ==> recency_lt(#[trigger] out@[a]@, #[trigger] out@[b]@),
                forall|m: int| 0 <= m < out@.len() ==> #[trigger] out@[m].id < i && live(self@, out@[m].id as int)
                    && self@[out@[m].id as int] == Some(out@[m]@),
                forall|j: int| 0 <= j < i && #[trigger] live(self@, j) ==>
                    exists|m: int| 0 <= m < out@.len() && #[trigger] out@[m]@ == self@[j]->Some_0,
            decreases n - i,
        {
            if let Some(e) = &self.entries[i] {
                assert(self@[i as int] == Some(e@));
                let mut p: usize = 0;
                while p < out.len() && recent_before(&out[p], e)
                    invariant
                        p <= out@.len(),
                        forall|q: int| 0 <= q < p ==> recency_lt(#[trigger] out@[q]@, e@),
                    decreases out@.len() - p,
                {
                    p = p + 1;
                }
                let ghost prev = out@;
                out.insert(p, e.duplicate());
                assert forall|a: int, b: int| 0 <= a < b < out@.len() implies recency_lt(#[trigger] out@[a]@, #[trigger] out@[b]@) by {
                    if p < prev.len() {
                        assert(prev[p as int].id < i);
                        assert(recency_lt(e@, prev[p as int]@));
                    }
                    if a < p && b > p {
                        assert(recency_lt(prev[a]@, e@));
                    }
                    if a == p && b > p + 1 {
                        assert(recency_lt(prev[p as int]@, prev[b - 1]@));
                    }
                }
                assert forall|j: int| 0 <= j < i + 1 && #[trigger] live(self@, j) implies
                    exists|m: int| 0 <= m < out@.len() && #[trigger] out@[m]@ == self@[j]->Some_0 by {
                    if j == i {
                        assert(out@[p as int]@ == self@[j]->Some_0);
                    } else {
                        let m = choose|m: int| 0 <= m < prev.len() && #[trigger] prev[m]@ == self@[j]->Some_0;
                        if m < p {
                            assert(out@[m]@ == self@[j]->Some_0);
                        } else {
                            assert(out@[m + 1]@ == self@[j]->Some_0);
                        }
                    }
                }
            }
            i = i + 1;
        }
        let ghost full = out@;
        if let Some(k) = limit {
            out.truncate(k);
        }
        assert forall|j: int| #[trigger] live(self@, j) implies {
            ||| exists|m: int| 0 <= m < out@.len() && #[trigger] out@[m]@ == self@[j]->Some_0
            ||| limit == Some(out@.len() as usize) && forall|m: int| 0 <= m < out@.len() ==> recency_lt(#[trigger] out@[m]@, self@[j]->Some_0)
        } by {
            let m = choose|m: int| 0 <= m < full.len() && #[trigger] full[m]@ == self@[j]->Some_0;
            if m < out@.len() {
                assert(out@[m]@ == self@[j]->Some_0);
            } else {
                assert forall|q: int| 0 <= q < out@.len() implies recency_lt(#[trigger] out@[q]@, self@[j]->Some_0) by {
                    assert(recency_lt(full[q]@, full[m]@));
                }
            }
        }
        out
    }

    /// Adds the note at `path`, stamped with `t`, in the first empty slot, or in a
    /// new slot at the end when none is empty; returns the new entry.
    pub fn add_at(&mut self, path: &str, t: Timestamp) -> (r: IndexEntry)
        requires
            old(self).wf(),
        ensures
            final(self).wf(),
            is_first_free(old(self)@, r.id as int),
            r@ == (EntryView { id: r.id as int, last_opened: t, path: path@ }),
            final(self)@ == placed(old(self)@, r.id as int, r@),
    {
        let n = self.entries.len();
        let mut i: usize = 0;
        while i < n && self.entries[i].is_some()
            invariant
                n == self.entries@.len(),
                i <= n,
                forall|j: int| 0 <= j < i ==> #[trigger] live(self@, j),
            decreases n - i,
        {
            i = i + 1;
        }
        assert(is_first_free(old(self)@, i as int));
        let e = IndexEntry { id: i, last_opened: t, path: path.to_owned() };
        let r = e.duplicate();
        if i < n {
            self.entries.set(i, Some(e));
        } else {
            self.entries.push(Some(e));
        }
        assert(self@ =~= placed(old(self)@, i as int, r@));
        r
    }

    /// Adds the note at `path`, stamped with the current time, in the first empty
    /// slot, or in a new slot at the end when none is empty; returns the new entry.
    pub fn add(&mut self, path: &str) -> (r: IndexEntry)
        requires
            old(self).wf(),
        ensures
            final(self).wf(),
            is_first_free(old(self)@, r.id as int),
            r@ == (EntryView { id: r.id as int, last_opened: r.last_opened, path: path@ }),
            final(self)@ == placed(old(self)@, r.id as int, r@),
    {
        let t = now();
        self.add_at(path, t)
    }

    /// Clears the slot of `entry.id`; nothing changes when that slot is out of
    /// range or already empty.
    pub fn delete(&mut self, entry: &IndexEntry)
        requires
            old(self).wf(),
        ensures
            final(self).wf(),
            final(self)@ == cleared(old(self)@, entry.id as int),
    {
        if entry.id < self.entries.len() {
            self.entries.set(entry.id, None);
        }
        assert(self@ =~= cleared(old(self)@, entry.id as int));
    }

    /// Stamps the entry with id `id` with time `t`; nothing changes when that slot
    /// is out of range or empty.
    pub fn touch_at(&mut self, id: usize, t: Timestamp)
        requires
            old(self).wf(),
        ensures
            final(self).wf(),
            final(self)@ == stamped(old(self)@, id as int, t),
    {
        if id < self.entries.len() {
            match &self.entries[id] {
                Some(e) => {
                    let updated = IndexEntry { id: e.id, last_opened: t, path: e.path.clone() };
                    self.entries.set(id, Some(updated));
                },
                None => {},
            }
        }
        assert(self@ =~= stamped(old(self)@, id as int, t));
    }

    /// Stamps the entry with id `id` with the current time; nothing changes when
    /// that slot is out of range or empty. Only the time changes: the entry keeps
    /// its id and its path, and every other slot is left as it was.
    pub fn touch(&mut self, id: usize)
        requires
            old(self).wf(),
        ensures
            final(self).wf(),
            final(self)@.len() == old(self)@.len(),
            forall|j: int| 0 <= j < old(self)@.len() && j != id ==> final(self)@[j] == old(self)@[j],
            !live(old(self)@, id as int) ==> final(self)@ == old(self)@,
            live(old(self)@, id as int) ==> {
                &&& final(self)@[id as int] is Some
                &&& final(self)@[id as int]->Some_0.id == old(self)@[id as int]->Some_0.id
                &&& final(self)@[id as int]->Some_0.path == old(self)@[id as int]->Some_0.path
                &&& final(self)@ == stamped(old(self)@, id as int, final(self)@[id as int]->Some_0.last_opened)
            },
    {
        let t = now();
        self.touch_at(id, t);
    }
}

} // verus!
