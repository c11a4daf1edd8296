use rx_view::file::FileStatus;
use rx_view::geometry::{Rect, Rgba8, ViewCoords, ViewExtent};
use rx_view::resource::MemoryResource;
use rx_view::view::{View, ViewId, ViewOp, ViewState};

fn blank_view(fw: u32, fh: u32, nframes: usize) -> View<MemoryResource> {
    View::new(ViewId(1), FileStatus::NoFile, fw, fh, nframes, MemoryResource::new())
}

#[test]
fn extent_geometry() {
    let e = ViewExtent::new(8, 8, 3);
    assert_eq!(e.width(), 24);
    assert_eq!(e.height(), 8);
    assert_eq!(e.rect(), Rect::new(0, 0, 24, 8));
    assert_eq!(e.frame(0), Rect::new(0, 0, 8, 8));
    assert_eq!(e.frame(2), Rect::new(16, 0, 24, 8));
    assert_eq!(e.to_frame(ViewCoords::new(17, 0)), 2);
    assert_eq!(e.to_frame(ViewCoords::new(7, 3)), 0);
}

#[test]
fn new_view_is_blank_and_okay() {
    let v = blank_view(8, 8, 2);
    assert_eq!(v.width(), 16);
    assert_eq!(v.height(), 8);
    assert_eq!(v.size(), (16, 8));
    assert_eq!(v.layer_size(), (16, 8));
    assert_eq!(v.extent(), ViewExtent::new(8, 8, 2));
    assert!(v.is_okay());
    assert!(!v.is_dirty());
    assert!(!v.is_damaged());
    assert!(!v.is_resized());
    assert_eq!(v.layers.len(), 1);
    assert_eq!(v.active_layer_id, 0);
    assert_eq!(v.ops.len(), 0);
    assert!(v.file_storage().is_none());
    assert_eq!(v.status(), "");
}

#[test]
fn extend_marks_resized_and_grows_width() {
    // A view with fw=8, fh=8, nframes=1: extend() makes the width 16 and
    // the state Dirty(Some({8,8,2})).
    let mut v = blank_view(8, 8, 1);
    v.extend();
    assert_eq!(v.width(), 16);
    assert_eq!(v.state, ViewState::Dirty(Some(ViewExtent::new(8, 8, 2))));
    assert!(v.is_dirty());
    assert!(v.is_resized());
    assert_eq!(v.ops, vec![ViewOp::Resize(16, 8)]);
}

#[test]
fn extend_then_shrink_round_trips_geometry() {
    let mut v = blank_view(8, 8, 3);
    let width_before = v.width();
    let frames_before = v.animation.len();
    v.extend();
    assert_eq!(v.animation.len(), frames_before + 1);
    v.shrink();
    assert_eq!(v.animation.len(), frames_before);
    assert_eq!(v.width(), width_before);
}

#[test]
fn shrink_never_drops_the_last_frame() {
    let mut v = blank_view(8, 8, 1);
    v.shrink();
    assert_eq!(v.animation.len(), 1);
    assert_eq!(v.width(), 8);
    assert!(v.is_okay());
    assert_eq!(v.ops.len(), 0);
}

#[test]
fn extend_clone_blits_the_source_frame() {
    let mut v = blank_view(8, 8, 2);
    v.extend_clone(-1);
    assert_eq!(v.animation.len(), 3);
    assert_eq!(
        v.ops,
        vec![
            ViewOp::Resize(24, 8),
            ViewOp::Blit(Rect::new(8, 0, 16, 8), Rect::new(16, 0, 24, 8)),
        ]
    );

    let mut w = blank_view(8, 8, 2);
    w.extend_clone(0);
    assert_eq!(
        w.ops,
        vec![
            ViewOp::Resize(24, 8),
            ViewOp::Blit(Rect::new(0, 0, 8, 8), Rect::new(16, 0, 24, 8)),
        ]
    );
}

#[test]
fn resize_frames_keeps_the_frame_count() {
    let mut v = blank_view(8, 8, 3);
    v.resize_frames(16, 4);
    assert_eq!(v.extent(), ViewExtent::new(16, 4, 3));
    assert_eq!(v.width(), 48);
    assert_eq!(v.state, ViewState::Dirty(Some(ViewExtent::new(16, 4, 3))));
    assert_eq!(v.ops, vec![ViewOp::Resize(48, 4)]);
}

#[test]
fn slice_succeeds_only_on_even_division() {
    let mut v = blank_view(8, 8, 2);
    // 16 % 4 == 0: four frames of width 4.
    assert!(v.slice(4));
    assert_eq!(v.extent(), ViewExtent::new(4, 8, 4));
    assert_eq!(v.state, ViewState::Dirty(None));
    // slicing does not enqueue a resize
    assert_eq!(v.ops.len(), 0);
}

#[test]
fn slice_failure_mutates_nothing() {
    let mut v = blank_view(8, 8, 2);
    let extent_before = v.extent();
    let frames_before = v.animation.frames.clone();
    let index_before = v.animation.index;
    let state_before = v.state;
    assert!(!v.slice(3));
    assert!(!v.slice(0));
    assert_eq!(v.extent(), extent_before);
    assert_eq!(v.animation.frames, frames_before);
    assert_eq!(v.animation.index, index_before);
    assert_eq!(v.state, state_before);
    assert_eq!(v.ops.len(), 0);
}

#[test]
fn touch_flips_saved_to_modified_once() {
    let storage = rx_view::file::FileStorage::Single(String::from("a.png"));
    let mut v: View<MemoryResource> = View::new(
        ViewId(1),
        FileStatus::Saved(storage.clone()),
        8,
        8,
        1,
        MemoryResource::new(),
    );
    v.touch();
    assert_eq!(v.file_status, FileStatus::Modified(storage.clone()));
    assert_eq!(v.state, ViewState::Dirty(None));
    // a second dirty event is coalesced: the state is not overwritten
    v.touch_layer();
    assert_eq!(v.state, ViewState::Dirty(None));
    assert_eq!(v.file_status, FileStatus::Modified(storage));
}

#[test]
fn touch_layer_records_the_active_layer() {
    let mut v = blank_view(8, 8, 1);
    let id = v.push_layer();
    assert_eq!(id, 1);
    assert!(v.activate_layer(1));
    v.touch_layer();
    assert_eq!(v.state, ViewState::LayerDirty(1));
}

#[test]
fn damage_always_overwrites_the_state() {
    let mut v = blank_view(8, 8, 1);
    v.touch();
    assert_eq!(v.state, ViewState::Dirty(None));
    v.damaged(Some(ViewExtent::new(8, 8, 1)));
    assert_eq!(v.state, ViewState::Damaged(Some(ViewExtent::new(8, 8, 1))));
    v.layer_damaged(0);
    assert_eq!(v.state, ViewState::LayerDamaged(0));
    assert!(v.is_damaged());
    v.okay();
    assert!(v.is_okay());
}

#[test]
fn layer_activation_is_bounds_checked() {
    let mut v = blank_view(8, 8, 1);
    assert!(!v.activate_layer(1));
    assert_eq!(v.active_layer_id, 0);
    assert!(!v.activate_next_layer());
    assert!(!v.activate_prev_layer());

    v.push_layer();
    assert!(v.activate_next_layer());
    assert_eq!(v.active_layer_id, 1);
    assert!(!v.activate_next_layer());
    assert!(v.activate_prev_layer());
    assert_eq!(v.active_layer_id, 0);
    assert_eq!(v.active_layer().index, 0);
}

#[test]
fn push_and_remove_layer_keep_indices_stable() {
    let mut v = blank_view(8, 8, 1);
    // every operation keeps at least one layer and a valid active layer
    let a = v.push_layer();
    let b = v.push_layer();
    assert_eq!((a, b), (1, 2));
    assert_eq!(v.layers.len(), 3);
    assert_eq!(v.layers[2].index, 2);
    assert!(v.activate_layer(2));
    // only the topmost layer may be removed
    v.remove_layer(2);
    assert_eq!(v.layers.len(), 2);
    assert_eq!(v.active_layer_id, 1);
    v.remove_layer(1);
    assert_eq!(v.layers.len(), 1);
    assert_eq!(v.active_layer_id, 0);
}

#[test]
fn paint_ops_are_queued_in_order() {
    let mut v = blank_view(8, 8, 1);
    let red = Rgba8::new(255, 0, 0, 255);
    v.clear(red);
    v.paint_color(red, 2, 3);
    v.yank(Rect::new(0, 0, 4, 4));
    v.flip(Rect::new(0, 0, 4, 4), rx_view::geometry::Axis::Horizontal);
    v.paste(Rect::new(1, 1, 5, 5));
    assert_eq!(
        v.ops,
        vec![
            ViewOp::Clear(red),
            ViewOp::SetPixel(0, red, 2, 3),
            ViewOp::Yank(0, Rect::new(0, 0, 4, 4)),
            ViewOp::Flip(0, Rect::new(0, 0, 4, 4), rx_view::geometry::Axis::Horizontal),
            ViewOp::Paste(Rect::new(1, 1, 5, 5)),
        ]
    );
    // clear() touched the view first, so the state is Dirty, not LayerDirty
    assert_eq!(v.state, ViewState::Dirty(None));
}

#[test]
fn default_layer_pixels_are_transparent() {
    let mut v = blank_view(4, 4, 1);
    let id = v.add_layer(None);
    assert_eq!(id, 1);
    // the store received one 4*4 buffer of fully transparent pixels
    assert_eq!(v.resource.layers[0].pixels.len(), 16);
    assert_eq!(v.color_at(1, ViewCoords::new(0, 0)), Some(Rgba8::new(0, 0, 0, 0)));
    assert_eq!(v.color_at(1, ViewCoords::new(3, 3)), Some(Rgba8::new(0, 0, 0, 0)));
    assert_eq!(v.color_at(1, ViewCoords::new(4, 0)), None);
}

#[test]
fn animation_steps_circularly() {
    let mut v = blank_view(8, 8, 3);
    assert_eq!(v.animation.index, 0);
    assert_eq!(*v.animation.val(), Rect::new(0, 0, 8, 8));
    v.animation.step();
    assert_eq!(v.animation.index, 1);
    v.animation.step();
    v.animation.step();
    assert_eq!(v.animation.index, 0);
    assert_eq!(v.animation.len(), 3);
}

#[test]
fn bounds_are_origin_anchored() {
    let mut v = blank_view(8, 8, 2);
    v.push_layer();
    assert_eq!(v.bounds(), Rect::new(0, 0, 16, 16));
    assert_eq!(v.layer_bounds(), Rect::new(0, 0, 16, 8));
}
