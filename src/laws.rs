//! Properties that hold across several catalog operations, stated over the
//! abstract slot sequence that the operations' contracts speak of.

use crate::clock::Timestamp;
use crate::entry::{EntryView, IndexEntry};
use crate::index::{
    cleared, entry_at, ids_match_slots, is_first_free, live, name_hit, name_lookup, placed, query_lookup,
    slots_view, stem_hit, Index,
};
use crate::paths::{file_name_of, file_stem_of};
use crate::query::{all_digits, digits_value, id_text, is_digit, is_id_query};
use vstd::prelude::*;

verus! {

/// An entry just added at path `p` is found by its id, and holds path `p`.
pub proof fn law_added_entry_found_by_id(s: Seq<Option<EntryView>>, p: Seq<char>, t: Timestamp, i: int)
    requires
        ids_match_slots(s),
        is_first_free(s, i),
    ensures
        ({
            let e = EntryView { id: i, last_opened: t, path: p };
            &&& ids_match_slots(placed(s, i, e))
            &&& entry_at(placed(s, i, e), i) == Some(e)
            &&& entry_at(placed(s, i, e), i)->Some_0.path == p
        }),
{
}

/// Deleting the entry with id `id` and then adding a note gives the new note id
/// `id`, when every slot before `id` is occupied.
pub proof fn law_delete_then_add_reuses_id(s: Seq<Option<EntryView>>, id: int, k: int)
    requires
        ids_match_slots(s),
        0 <= id < s.len(),
        forall|j: int| 0 <= j < id ==> #[trigger] live(s, j),
        is_first_free(cleared(s, id), k),
    ensures
        k == id,
{
    if k < id {
        assert(live(s, k));
    }
    if k > id {
        assert(live(cleared(s, id), id));
    }
}

/// The slots of a well-formed catalog, as `Index::slots` hands them out
/// (`stored`), pass the check that `Index::from_slots` makes before it accepts
/// stored slots.
pub proof fn law_save_then_load(c: Index, stored: Seq<Option<IndexEntry>>)
    requires
        c.wf(),
        slots_view(stored) == c@,
    ensures
        ids_match_slots(slots_view(stored)),
{
}

/// When exactly one entry has file name `n`, a lookup of `n` gives that entry; so does the query `n`,
/// unless `n` reads as an id (an optional `+` and
/// decimal digits).
pub proof fn law_file_name_resolves(s: Seq<Option<EntryView>>, i: int, n: Seq<char>)
    requires
        ids_match_slots(s),
        live(s, i),
        file_name_of(s[i]->Some_0.path) == Some(n),
        forall|j: int| j != i ==> !#[trigger] name_hit(s, j, n),
    ensures
        forall|r: Option<EntryView>| name_lookup(s, n, r) <==> r == Some(s[i]->Some_0),
        !is_id_query(n) ==> forall|r: Option<EntryView>| query_lookup(s, n, r) <==> r == Some(s[i]->Some_0),
{
    assert(name_hit(s, i, n));
    assert forall|r: Option<EntryView>| name_lookup(s, n, r) <==> r == Some(s[i]->Some_0) by {
        if r == Some(s[i]->Some_0) {
            assert(s[i]->Some_0.id == i);
        }
        if name_lookup(s, n, r) {
            if let Some(e) = r {
                assert(name_hit(s, e.id, n));
            }
        }
    }
}

/// When one entry has file stem `n` and no other entry has `n` as file name or
/// stem, a lookup of `n` gives that entry; so does the query `n`, unless `n`
/// reads as an id.
pub proof fn law_file_stem_resolves(s: Seq<Option<EntryView>>, i: int, n: Seq<char>)
    requires
        ids_match_slots(s),
        live(s, i),
        file_stem_of(s[i]->Some_0.path) == Some(n),
        forall|j: int| j != i ==> !#[trigger] name_hit(s, j, n),
        forall|j: int| j != i ==> !#[trigger] stem_hit(s, j, n),
    ensures
        forall|r: Option<EntryView>| name_lookup(s, n, r) <==> r == Some(s[i]->Some_0),
        !is_id_query(n) ==> forall|r: Option<EntryView>| query_lookup(s, n, r) <==> r == Some(s[i]->Some_0),
{
    assert(stem_hit(s, i, n));
    assert forall|r: Option<EntryView>| name_lookup(s, n, r) <==> r == Some(s[i]->Some_0) by {
        if r == Some(s[i]->Some_0) {
            assert(s[i]->Some_0.id == i);
        }
        if name_lookup(s, n, r) {
            if let Some(e) = r {
                if name_hit(s, e.id, n) {
                } else {
                    assert(stem_hit(s, e.id, n));
                }
            }
        }
    }
}

/// Query text made of decimal digits only is always an id lookup, whatever the
/// file names in the catalog; when its value is beyond every slot, it finds nothing.
pub proof fn law_digits_query_is_id_lookup(s: Seq<Option<EntryView>>, q: Seq<char>)
    requires
        all_digits(q),
    ensures
        is_id_query(q),
        forall|r: Option<EntryView>| query_lookup(s, q, r) <==> r == entry_at(s, digits_value(q)),
        digits_value(q) >= s.len() ==> forall|r: Option<EntryView>| query_lookup(s, q, r) <==> r is None,
{
    assert(is_digit(q[0]));
    assert(id_text(q) == q);
}

} // verus!
