use rx_view::file::FileStatus;
use rx_view::geometry::ViewCoords;
use rx_view::manager::ViewManager;
use rx_view::resource::{MemoryResource, Snapshot, ViewResource};
use rx_view::view::ViewId;

fn manager_with(n: usize) -> (ViewManager<MemoryResource>, Vec<ViewId>) {
    let mut m: ViewManager<MemoryResource> = ViewManager::new();
    let mut ids = Vec::new();
    for _ in 0..n {
        ids.push(m.add(FileStatus::NoFile, 8, 8, 1, MemoryResource::new()));
    }
    (m, ids)
}

#[test]
fn ids_are_dense_and_monotonic() {
    let (m, ids) = manager_with(3);
    assert_eq!(ids, vec![ViewId(1), ViewId(2), ViewId(3)]);
    assert_eq!(m.ids(), ids);
    assert!(!m.is_empty());
    assert_eq!(m.views().len(), 3);
    assert_eq!(m.first().unwrap().id, ViewId(1));
    assert_eq!(m.last().unwrap().id, ViewId(3));
}

#[test]
fn the_default_id_is_reserved() {
    let m: ViewManager<MemoryResource> = ViewManager::new();
    assert_eq!(m.active_id, ViewId::default());
    assert!(m.is_empty());
    assert!(m.active().is_none());
    assert!(m.recent().is_none());
    assert!(m.first().is_none());
    assert!(m.last().is_none());
}

#[test]
fn activation_tracks_recency() {
    let (mut m, ids) = manager_with(3);
    m.activate(ids[0]);
    m.activate(ids[2]);
    assert_eq!(m.active_id, ids[2]);
    assert_eq!(m.recent(), Some(ids[2]));
    // re-activating the active view changes nothing
    m.activate(ids[2]);
    assert_eq!(m.recent(), Some(ids[2]));
    assert_eq!(m.active().unwrap().id, ids[2]);
}

#[test]
fn removal_falls_back_to_most_recent() {
    let (mut m, ids) = manager_with(3);
    m.activate(ids[0]);
    m.activate(ids[2]);
    // removing the active view: the most recently used remaining view wins
    m.remove(ids[2]);
    assert_eq!(m.active_id, ids[0]);
    assert_eq!(m.ids(), vec![ids[0], ids[1]]);
}

#[test]
fn removal_falls_back_to_first_view_without_recency() {
    let (mut m, ids) = manager_with(3);
    m.remove(ids[1]);
    // nothing was ever activated: the first remaining view wins
    assert_eq!(m.active_id, ids[0]);
    m.remove(ids[0]);
    assert_eq!(m.active_id, ids[2]);
    m.remove(ids[2]);
    assert_eq!(m.active_id, ViewId::default());
    assert!(m.is_empty());
}

#[test]
fn removed_ids_are_not_reused() {
    let (mut m, ids) = manager_with(2);
    m.remove(ids[1]);
    let id = m.add(FileStatus::NoFile, 8, 8, 1, MemoryResource::new());
    assert_eq!(id, ViewId(3));
}

#[test]
fn neighbor_queries_follow_id_order() {
    let (mut m, ids) = manager_with(3);
    m.remove(ids[1]);
    assert_eq!(m.after(ids[0]), Some(ids[2]));
    assert_eq!(m.after(ids[2]), None);
    assert_eq!(m.before(ids[2]), Some(ids[0]));
    assert_eq!(m.before(ids[0]), None);
}

#[test]
fn get_and_get_mut_reach_the_same_view() {
    let (mut m, ids) = manager_with(2);
    assert!(m.get(ViewId(9)).is_none());
    assert_eq!(m.get(ids[1]).unwrap().id, ids[1]);
    m.get_mut(ids[1]).extend();
    assert_eq!(m.get(ids[1]).unwrap().width(), 16);
    m.activate(ids[1]);
    assert_eq!(m.active_mut().width(), 16);
    m.first_mut().extend();
    assert_eq!(m.first().unwrap().width(), 16);
}

#[test]
fn snapshots_read_through_to_the_store() {
    let (mut m, ids) = manager_with(1);
    assert!(m.get_snapshot_safe(ids[0], 0).is_none());

    // register pixels for layer 0 in the store
    let v = m.get_mut(ids[0]);
    let extent = v.extent();
    let white = rx_view::geometry::Rgba8::new(255, 255, 255, 255);
    v.resource.add_layer(0, extent, vec![white; 64]);

    let (snapshot, pixels) = m.get_snapshot(ids[0], 0);
    assert_eq!(snapshot, Snapshot { extent });
    assert_eq!(pixels.len(), 64);

    let rect = rx_view::geometry::Rect::new(0, 0, 8, 8);
    let (_, rect_pixels) = m.get_snapshot_rect(ids[0], 0, &rect).unwrap();
    assert_eq!(rect_pixels.len(), 64);

    // a pixel can be read back through the view
    let v = m.get(ids[0]).unwrap();
    assert_eq!(v.color_at(0, ViewCoords::new(3, 2)), Some(white));
    assert_eq!(v.color_at(0, ViewCoords::new(8, 0)), None);
    assert_eq!(v.color_at(1, ViewCoords::new(0, 0)), None);
}

#[test]
fn recency_list_is_bounded() {
    let (mut m, ids) = manager_with(70);
    for id in &ids {
        m.activate(*id);
    }
    assert!(m.lru.len() <= rx_view::manager::MAX_VIEWS);
    assert_eq!(m.recent(), Some(ids[69]));
    assert_eq!(m.active_id, ids[69]);
}

#[test]
fn snapshot_index_is_row_major() {
    let snap = Snapshot { extent: rx_view::geometry::ViewExtent::new(4, 3, 2) };
    assert_eq!(snap.layer_coord_to_index(ViewCoords::new(0, 0)), Some(0));
    assert_eq!(snap.layer_coord_to_index(ViewCoords::new(5, 2)), Some(21));
    assert_eq!(snap.layer_coord_to_index(ViewCoords::new(8, 0)), None);
    assert_eq!(snap.layer_coord_to_index(ViewCoords::new(0, 3)), None);
}
