use reactive_core::changes::{apply_to_mirror, Change};
use reactive_core::list_model::ListModel;

fn strings(items: &[&str]) -> Vec<String> {
    items.iter().map(|s| s.to_string()).collect()
}

#[test]
fn changes_replay_to_current_snapshot() {
    // The round-trip law on concrete data: a mirror taken at an old
    // version, replayed with every record produced since, equals the
    // current snapshot exactly, in order.
    let mut model = ListModel::new(strings(&["a", "b", "c"]));
    let mut mirror = strings(&["a", "b", "c"]);
    let v1 = model.get_version();
    model.insert(1, "x".to_string());
    model.splice(2, 4, strings(&["y"]));
    model.remove(0);
    model.insert(2, "z".to_string());
    let records: Vec<Change<String>> = model.changes_since(v1).to_vec();
    assert_eq!(records.len(), 4);
    for record in records {
        apply_to_mirror(&mut mirror, record);
    }
    assert_eq!(&mirror, model.underlying_vector());
    assert_eq!(mirror, strings(&["x", "y", "z"]));
}

#[test]
fn changes_since_later_version_is_shorter() {
    let mut model = ListModel::new(vec![1u32, 2, 3]);
    let v1 = model.get_version();
    model.remove(2);
    let v2 = model.get_version();
    model.insert(0, 9);
    assert_eq!(model.changes_since(v1).len(), 2);
    assert_eq!(model.changes_since(v2).len(), 1);
    assert_eq!(model.changes_since(model.get_version()).len(), 0);
    assert_eq!(model.underlying_vector(), &vec![9u32, 1, 2]);
}

#[test]
fn splice_semantics_on_mirror() {
    // Splice removes a contiguous range, then inserts the replacement run
    // at the same position.
    let mut mirror = strings(&["a", "b", "c", "d"]);
    apply_to_mirror(
        &mut mirror,
        Change::Splice { remove_start: 1, remove_end: 3, replace_with: strings(&["x", "y", "z"]) },
    );
    assert_eq!(mirror, strings(&["a", "x", "y", "z", "d"]));
    // An empty replacement is a pure range removal.
    apply_to_mirror(
        &mut mirror,
        Change::Splice { remove_start: 0, remove_end: 2, replace_with: Vec::new() },
    );
    assert_eq!(mirror, strings(&["y", "z", "d"]));
    // An empty removal range is a pure batched insertion.
    apply_to_mirror(
        &mut mirror,
        Change::Splice { remove_start: 3, remove_end: 3, replace_with: strings(&["e"]) },
    );
    assert_eq!(mirror, strings(&["y", "z", "d", "e"]));
    // A full-range splice is a reset.
    apply_to_mirror(
        &mut mirror,
        Change::Splice { remove_start: 0, remove_end: 4, replace_with: strings(&["only"]) },
    );
    assert_eq!(mirror, strings(&["only"]));
}

#[test]
fn insert_and_remove_records() {
    let mut mirror: Vec<u64> = vec![10, 20];
    apply_to_mirror(&mut mirror, Change::Insert { index: 2, value: 30 });
    assert_eq!(mirror, vec![10, 20, 30]);
    apply_to_mirror(&mut mirror, Change::Remove { index: 0 });
    assert_eq!(mirror, vec![20, 30]);
    let rec: Change<u64> = Change::Insert { index: 1, value: 5 };
    assert!(rec.is_valid_for(2));
    let rec: Change<u64> = Change::Remove { index: 2 };
    assert!(!rec.is_valid_for(2));
    let rec: Change<u64> = Change::Splice { remove_start: 2, remove_end: 1, replace_with: vec![] };
    assert!(!rec.is_valid_for(3));
}

#[test]
fn empty_list_model() {
    let mut model: ListModel<String> = ListModel::new(Vec::new());
    assert_eq!(model.len(), 0);
    assert_eq!(model.get_version().as_u64(), 1);
    model.insert(0, "first".to_string());
    assert_eq!(model.len(), 1);
    assert_eq!(model.get_version().as_u64(), 2);
}

#[test]
fn listener_counters() {
    let mut model = ListModel::new(vec![1u8]);
    assert_eq!(model.total_listener_count(), 0);
    model.listener_attached();
    model.listener_attached();
    assert_eq!(model.total_listener_count(), 2);
    model.mark_all_pending();
    assert_eq!(model.pending_listener_count(), 2);
    model.listener_processed();
    assert_eq!(model.pending_listener_count(), 1);
    model.listener_detached();
    assert_eq!(model.total_listener_count(), 1);
}
