use note_index::clock::Timestamp;
use note_index::entry::IndexEntry;
use note_index::index::{CatalogError, Index};

fn ts(secs: i64, nanos: u32) -> Timestamp {
    Timestamp { secs, nanos }
}

fn live_ids(c: &Index) -> Vec<Option<usize>> {
    c.slots().iter().map(|s| s.as_ref().map(|e| e.id)).collect()
}

#[test]
fn add_to_empty_catalog_gets_id_zero() {
    let mut c = Index::default();
    let e = c.add("/notes/a.md");
    assert_eq!(e.id, 0);
    assert_eq!(e.path, "/notes/a.md");
}

#[test]
fn delete_then_add_reuses_freed_slot() {
    let mut c = Index::default();
    let a = c.add("/notes/a.md");
    let b = c.add("/notes/b.md");
    assert_eq!((a.id, b.id), (0, 1));
    c.delete(&a);
    let n = c.add("/notes/c.md");
    assert_eq!(n.id, 0);
    assert_eq!(c.get_by_id(0).unwrap().path, "/notes/c.md");
    assert_eq!(c.get_by_id(1).unwrap().path, "/notes/b.md");
}

#[test]
fn add_fills_first_empty_slot_then_appends() {
    let mut c = Index::default();
    for p in ["/n/a.md", "/n/b.md", "/n/c.md", "/n/d.md"] {
        c.add(p);
    }
    let e1 = c.get_by_id(1).unwrap();
    let e3 = c.get_by_id(3).unwrap();
    c.delete(&e3);
    c.delete(&e1);
    assert_eq!(live_ids(&c), vec![Some(0), None, Some(2), None]);
    assert_eq!(c.add("/n/e.md").id, 1);
    assert_eq!(c.add("/n/f.md").id, 3);
    assert_eq!(c.add("/n/g.md").id, 4);
}

#[test]
fn added_entry_is_found_by_its_id() {
    let mut c = Index::default();
    c.add("/notes/x.md");
    let e = c.add("/notes/some dir/y.txt");
    let found = c.get_by_id(e.id).unwrap();
    assert_eq!(found.path, "/notes/some dir/y.txt");
    assert_eq!(found, e);
}

#[test]
fn get_by_id_out_of_range_or_empty_is_none() {
    let mut c = Index::default();
    let a = c.add("/notes/a.md");
    c.add("/notes/b.md");
    c.delete(&a);
    assert!(c.get_by_id(0).is_none());
    assert!(c.get_by_id(2).is_none());
    assert!(c.get_by_id(usize::MAX).is_none());
}

#[test]
fn delete_out_of_range_or_twice_is_noop() {
    let mut c = Index::default();
    let a = c.add("/notes/a.md");
    let stray = IndexEntry { id: 9, last_opened: ts(0, 0), path: "/nowhere".to_string() };
    c.delete(&stray);
    assert_eq!(live_ids(&c), vec![Some(0)]);
    c.delete(&a);
    c.delete(&a);
    assert_eq!(live_ids(&c), vec![None]);
}

#[test]
fn touch_changes_only_last_opened() {
    let mut c = Index::default();
    c.add_at("/notes/a.md", ts(10, 0));
    c.add_at("/notes/b.md", ts(20, 0));
    c.touch_at(0, ts(30, 5));
    let a = c.get_by_id(0).unwrap();
    assert_eq!(a.id, 0);
    assert_eq!(a.path, "/notes/a.md");
    assert_eq!(a.last_opened, ts(30, 5));
    assert_eq!(c.get_by_id(1).unwrap().last_opened, ts(20, 0));
    c.touch(1);
    let b = c.get_by_id(1).unwrap();
    assert_eq!((b.id, b.path.as_str()), (1, "/notes/b.md"));
    assert!(b.last_opened.secs > 20);
}

#[test]
fn touch_of_absent_slot_is_noop() {
    let mut c = Index::default();
    let a = c.add_at("/notes/a.md", ts(10, 0));
    c.delete(&a);
    c.touch_at(0, ts(99, 0));
    c.touch_at(5, ts(99, 0));
    assert_eq!(live_ids(&c), vec![None]);
}

#[test]
fn get_resolves_stem() {
    let mut c = Index::default();
    let e = c.add("/notes/a.md");
    assert_eq!(c.get("a"), Some(e));
}

#[test]
fn get_resolves_exact_file_name_and_stem() {
    let mut c = Index::default();
    c.add("/notes/other.md");
    let e = c.add("/notes/journal.txt");
    assert_eq!(c.get("journal.txt"), Some(e.clone()));
    assert_eq!(c.get("journal"), Some(e));
    assert_eq!(c.get("journal.md"), None);
    assert_eq!(c.get("notes"), None);
}

#[test]
fn name_match_outranks_earlier_stem_match() {
    let mut c = Index::default();
    c.add("/notes/a.md");
    let exact = c.add("/other/a");
    assert_eq!(c.get_by_name("a"), Some(exact));
}

#[test]
fn first_of_equal_stems_wins() {
    let mut c = Index::default();
    let first = c.add("/notes/a.md");
    c.add("/notes/a.txt");
    assert_eq!(c.get_by_name("a"), Some(first));
}

#[test]
fn digit_query_is_id_lookup() {
    let mut c = Index::default();
    c.add("/notes/x.md");
    let seven = c.add("/notes/7");
    assert_eq!(seven.id, 1);
    assert_eq!(c.get("7"), None);
    assert_eq!(c.get("1"), Some(seven.clone()));
    assert_eq!(c.get("+1"), Some(seven.clone()));
    assert_eq!(c.get("01"), Some(seven));
    assert_eq!(c.get("0").unwrap().path, "/notes/x.md");
}

#[test]
fn overflowing_digits_are_still_an_id() {
    let mut c = Index::default();
    let big = "99999999999999999999999999";
    let e = c.add(&format!("/notes/{}.md", big));
    assert_eq!(c.get(big), None);
    assert_eq!(c.get(&format!("+{}", big)), None);
    assert_eq!(c.get(&format!("{}.md", big)), Some(e));
}

#[test]
fn nothing_stored_loads_empty_catalog() {
    let c = Index::from_stored(None).unwrap();
    assert!(c.slots().is_empty());
    assert!(c.get_by_id(0).is_none());
}

#[test]
fn slots_round_trip_keeps_tombstones_and_ids() {
    let mut c = Index::default();
    c.add_at("/n/a.md", ts(1, 0));
    let b = c.add_at("/n/b.md", ts(2, 0));
    c.add_at("/n/c.md", ts(3, 0));
    c.delete(&b);
    let stored = c.slots().clone();
    let back = Index::from_stored(Some(stored.clone())).unwrap();
    assert_eq!(back.slots(), &stored);
    assert_eq!(live_ids(&back), vec![Some(0), None, Some(2)]);
    let mut back = back;
    assert_eq!(back.add("/n/d.md").id, 1);
}

#[test]
fn misplaced_stored_entry_is_refused() {
    let stored = vec![
        Some(IndexEntry { id: 0, last_opened: ts(1, 0), path: "/n/a.md".to_string() }),
        None,
        Some(IndexEntry { id: 1, last_opened: ts(1, 0), path: "/n/b.md".to_string() }),
        Some(IndexEntry { id: 7, last_opened: ts(1, 0), path: "/n/c.md".to_string() }),
    ];
    assert_eq!(Index::from_slots(stored).unwrap_err(), CatalogError::MisplacedEntry { slot: 2, id: 1 });
}

#[test]
fn sorted_most_recent_limit_one_gives_earliest() {
    let mut c = Index::default();
    c.add_at("/n/late.md", ts(200, 0));
    c.add_at("/n/early.md", ts(100, 0));
    let r = c.sorted_most_recent(Some(1));
    assert_eq!(r.len(), 1);
    assert_eq!(r[0].path, "/n/early.md");
}

#[test]
fn sorted_most_recent_orders_by_time_then_id() {
    let mut c = Index::default();
    c.add_at("/n/a.md", ts(5, 0));
    c.add_at("/n/b.md", ts(3, 7));
    c.add_at("/n/c.md", ts(5, 0));
    let d = c.add_at("/n/d.md", ts(3, 2));
    c.add_at("/n/e.md", ts(1, 0));
    let e = c.get_by_id(4).unwrap();
    c.delete(&e);
    let ids: Vec<usize> = c.sorted_most_recent(None).iter().map(|e| e.id).collect();
    assert_eq!(ids, vec![3, 1, 0, 2]);
    let two: Vec<usize> = c.sorted_most_recent(Some(2)).iter().map(|e| e.id).collect();
    assert_eq!(two, vec![3, 1]);
    assert_eq!(c.sorted_most_recent(Some(0)).len(), 0);
    assert_eq!(c.sorted_most_recent(Some(10)).len(), 4);
    assert_eq!(c.sorted_most_recent(Some(1))[0], d);
}

#[test]
fn sorted_most_recent_of_empty_catalog() {
    let c = Index::default();
    assert!(c.sorted_most_recent(None).is_empty());
}
