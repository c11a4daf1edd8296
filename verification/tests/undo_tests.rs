use rx_view::file::{FileStatus, FileStorage};
use rx_view::geometry::ViewExtent;
use rx_view::resource::{Direction, Edit, EditId, MemoryResource};
use rx_view::view::{View, ViewId, ViewState};

fn view_with_history(
    fw: u32,
    fh: u32,
    nframes: usize,
    edits: Vec<Edit>,
) -> View<MemoryResource> {
    let mut store = MemoryResource::new();
    for e in edits {
        store.record_edit(e);
    }
    View::new(ViewId(1), FileStatus::NoFile, fw, fh, nframes, store)
}

#[test]
fn view_painted_round_trip() {
    let mut v = view_with_history(8, 8, 1, vec![Edit::ViewPainted]);
    let extent = v.extent();
    let nlayers = v.layers.len();
    let status = v.file_status.clone();

    v.restore_snapshot(Direction::Backward);
    assert_eq!(v.state, ViewState::Damaged(None));
    v.restore_snapshot(Direction::Forward);
    assert_eq!(v.extent(), extent);
    assert_eq!(v.layers.len(), nlayers);
    assert_eq!(v.file_status, status);
}

#[test]
fn layer_painted_round_trip() {
    let mut v = view_with_history(8, 8, 1, vec![Edit::LayerPainted(0)]);
    let extent = v.extent();

    v.restore_snapshot(Direction::Backward);
    assert_eq!(v.state, ViewState::LayerDamaged(0));
    v.restore_snapshot(Direction::Forward);
    assert_eq!(v.extent(), extent);
    assert_eq!(v.layers.len(), 1);
    assert_eq!(v.file_status, FileStatus::NoFile);
}

#[test]
fn layer_added_round_trip() {
    let mut v = view_with_history(8, 8, 1, vec![Edit::LayerAdded(1)]);
    let id = v.push_layer();
    assert_eq!(id, 1);

    // undoing the addition removes the topmost layer
    v.restore_snapshot(Direction::Backward);
    assert_eq!(v.layers.len(), 1);
    assert_eq!(v.active_layer_id, 0);

    // redoing re-pushes it under the same id
    v.restore_snapshot(Direction::Forward);
    assert_eq!(v.layers.len(), 2);
    assert_eq!(v.layers[1].index, 1);
}

#[test]
fn view_resized_round_trip() {
    let from = ViewExtent::new(8, 8, 1);
    let to = ViewExtent::new(8, 8, 2);
    let mut v = view_with_history(8, 8, 2, vec![Edit::ViewResized(from, to)]);

    v.restore_snapshot(Direction::Backward);
    assert_eq!(v.extent(), from);
    assert_eq!(v.state, ViewState::Damaged(Some(from)));

    v.restore_snapshot(Direction::Forward);
    assert_eq!(v.extent(), to);
    assert_eq!(v.state, ViewState::Damaged(Some(to)));
    assert_eq!(v.file_status, FileStatus::NoFile);
}

#[test]
fn initial_edit_is_a_no_op() {
    let mut v = view_with_history(8, 8, 1, vec![Edit::Initial]);
    v.restore_snapshot(Direction::Backward);
    assert!(v.is_okay());
    assert_eq!(v.extent(), ViewExtent::new(8, 8, 1));
}

#[test]
fn undo_at_the_history_start_is_a_no_op() {
    let mut v = view_with_history(8, 8, 1, vec![]);
    v.restore_snapshot(Direction::Backward);
    v.restore_snapshot(Direction::Forward);
    assert!(v.is_okay());
    assert_eq!(v.file_status, FileStatus::NoFile);
}

#[test]
fn corrupt_layer_removal_is_ignored() {
    // The history claims a layer was added, but the view has only its
    // bottom layer left: undoing must not empty the stack.
    let mut v = view_with_history(8, 8, 1, vec![Edit::LayerAdded(0)]);
    v.restore_snapshot(Direction::Backward);
    assert_eq!(v.layers.len(), 1);
    assert_eq!(v.active_layer_id, 0);
}

#[test]
fn undo_to_saved_snapshot_restores_saved() {
    // History: three edits, cursor at 2, the state with id 2 is on disk.
    let storage = FileStorage::Single(String::from("a.png"));
    let mut store = MemoryResource::new();
    store.record_edit(Edit::LayerPainted(0));
    store.record_edit(Edit::ViewPainted);
    store.record_edit(Edit::LayerPainted(0));
    store.cursor = 2;
    let mut v: View<MemoryResource> = View::new(
        ViewId(1),
        FileStatus::Saved(storage.clone()),
        8,
        8,
        1,
        store,
    );
    v.saved_snapshot = Some(EditId(2));

    // undoing away from the saved edit: Saved -> Modified
    v.restore_snapshot(Direction::Backward);
    assert_eq!(v.file_status, FileStatus::Modified(storage.clone()));

    // undoing further, still away from it: stays Modified
    v.restore_snapshot(Direction::Backward);
    assert_eq!(v.file_status, FileStatus::Modified(storage.clone()));

    // redoing towards it, not there yet: stays Modified
    v.restore_snapshot(Direction::Forward);
    assert_eq!(v.file_status, FileStatus::Modified(storage.clone()));

    // redoing to exactly the saved edit id: Modified -> Saved
    v.restore_snapshot(Direction::Forward);
    assert_eq!(v.file_status, FileStatus::Saved(storage));
}
