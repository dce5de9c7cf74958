use reactive_core::list_model::ListModel;
use reactive_core::reconcile::{Reconciler, RenderOp};

fn strings(items: &[&str]) -> Vec<String> {
    items.iter().map(|s| s.to_string()).collect()
}

#[test]
fn start_builds_chained_table() {
    let mut model = ListModel::new(strings(&["a", "b", "c"]));
    let mut rec = Reconciler::new();
    let ops = rec.start(&mut model);
    assert_eq!(model.total_listener_count(), 1);
    assert_eq!(rec.table_len(), 3);
    assert_eq!(
        ops,
        vec![
            RenderOp::CreateItem { element: 0, task: 0, anchor: None, value: "a".to_string() },
            RenderOp::CreateItem { element: 1, task: 1, anchor: Some(0), value: "b".to_string() },
            RenderOp::CreateItem { element: 2, task: 2, anchor: Some(1), value: "c".to_string() },
        ]
    );
}

#[test]
fn splice_reconciles_with_minimal_operations() {
    // The list starts as [A, B, C]; the splice replaces B with [X, Y].
    // Exactly one element is removed (B's), the two new elements are
    // anchored after A's element and after each other, and C's element is
    // never touched.
    let mut model = ListModel::new(strings(&["A", "B", "C"]));
    let mut rec = Reconciler::new();
    rec.start(&mut model);
    let elem_a = rec.element_at(0);
    let elem_b = rec.element_at(1);
    let elem_c = rec.element_at(2);
    model.splice(1, 2, strings(&["X", "Y"]));
    let ops = rec.sync_to(&mut model);
    assert_eq!(model.underlying_vector(), &strings(&["A", "X", "Y", "C"]));
    assert_eq!(
        ops,
        vec![
            RenderOp::AbortTask { task: 1 },
            RenderOp::RemoveElement { element: elem_b },
            RenderOp::CreateItem {
                element: 3,
                task: 3,
                anchor: Some(elem_a),
                value: "X".to_string(),
            },
            RenderOp::CreateItem { element: 4, task: 4, anchor: Some(3), value: "Y".to_string() },
        ]
    );
    assert_eq!(rec.table_len(), 4);
    assert_eq!(rec.element_at(0), elem_a);
    assert_eq!(rec.element_at(1), 3);
    assert_eq!(rec.element_at(2), 4);
    assert_eq!(rec.element_at(3), elem_c);
    let removed: Vec<&RenderOp<String>> = ops
        .iter()
        .filter(|op| matches!(op, RenderOp::RemoveElement { .. }))
        .collect();
    assert_eq!(removed.len(), 1);
}

#[test]
fn insert_at_front_anchors_as_first_child() {
    // Insert at index 0 on [A, B]: the new element becomes the first
    // child (no anchor) and the existing elements are untouched.
    let mut model = ListModel::new(strings(&["A", "B"]));
    let mut rec = Reconciler::new();
    rec.start(&mut model);
    let elem_a = rec.element_at(0);
    let elem_b = rec.element_at(1);
    model.insert(0, "Z".to_string());
    let ops = rec.sync_to(&mut model);
    assert_eq!(model.underlying_vector(), &strings(&["Z", "A", "B"]));
    assert_eq!(
        ops,
        vec![RenderOp::CreateItem { element: 2, task: 2, anchor: None, value: "Z".to_string() }]
    );
    assert_eq!(rec.table_len(), 3);
    assert_eq!(rec.element_at(0), 2);
    assert_eq!(rec.element_at(1), elem_a);
    assert_eq!(rec.element_at(2), elem_b);
}

#[test]
fn remove_aborts_task_before_removing_element() {
    let mut model = ListModel::new(strings(&["a", "b"]));
    let mut rec = Reconciler::new();
    rec.start(&mut model);
    let elem_b = rec.element_at(1);
    model.remove(1);
    let ops = rec.sync_to(&mut model);
    assert_eq!(
        ops,
        vec![RenderOp::AbortTask { task: 1 }, RenderOp::RemoveElement { element: elem_b }]
    );
    assert_eq!(rec.table_len(), 1);
}

#[test]
fn table_size_tracks_collection_through_interleavings() {
    // However inserts, removes and splices interleave, once the pending
    // notifications are drained the table holds exactly one entry per
    // collection item.
    let mut model = ListModel::new(vec![0u64, 1, 2, 3]);
    let mut rec = Reconciler::new();
    rec.start(&mut model);
    model.insert(2, 10);
    model.remove(0);
    model.splice(1, 3, vec![20, 21, 22]);
    model.insert(0, 30);
    model.remove(4);
    let ops = rec.sync_to(&mut model);
    assert_eq!(rec.table_len(), model.len());
    assert_eq!(model.len(), 5);
    assert!(!ops.is_empty());
    // A second round of changes syncs incrementally from the new version.
    model.splice(0, 5, vec![7]);
    rec.sync_to(&mut model);
    assert_eq!(rec.table_len(), 1);
    assert_eq!(model.underlying_vector(), &vec![7u64]);
}

#[test]
fn sync_without_changes_is_empty() {
    let mut model = ListModel::new(vec![1u8, 2]);
    let mut rec = Reconciler::new();
    rec.start(&mut model);
    let ops = rec.sync_to(&mut model);
    assert!(ops.is_empty());
    assert_eq!(rec.table_len(), 2);
}
