use rx_view::file::{Error, FileStatus, FileStorage};
use rx_view::geometry::{Rect, Rgba8, ViewExtent};
use rx_view::layer::LayerId;
use rx_view::resource::{Edit, EditId, MemoryResource, Snapshot, ViewResource};
use rx_view::view::{View, ViewId};

fn fresh_view(fw: u32, fh: u32, nframes: usize) -> View<MemoryResource> {
    View::new(ViewId(1), FileStatus::NoFile, fw, fh, nframes, MemoryResource::new())
}

#[test]
fn save_new_document_adopts_storage_and_snapshot() {
    // A 1-layer, 2-frame, 8x8 view saved as a single file writes
    // 16*8 = 128 pixels and becomes Saved at the store's current edit.
    let mut v = fresh_view(8, 8, 1);
    v.extend();
    let storage = FileStorage::Single(String::from("a.png"));
    let written = v.save_as(&storage).unwrap();
    assert_eq!(written, 128);
    assert_eq!(v.file_status, FileStatus::Saved(storage));
    assert_eq!(v.saved_snapshot, Some(EditId(0)));
    // the full extent of the active layer went to the path
    assert_eq!(
        v.resource.saved,
        vec![(0, Rect::new(0, 0, 16, 8), String::from("a.png"))]
    );
    // a later touch flips the status to Modified with the same storage
    v.touch();
    assert_eq!(
        v.file_status,
        FileStatus::Modified(FileStorage::Single(String::from("a.png")))
    );
    assert_eq!(v.saved_snapshot, Some(EditId(0)));
}

#[test]
fn save_to_foreign_existing_path_is_refused() {
    // The target path exists on disk and is not part of the document's own
    // storage: a policy refusal, and the status is unchanged.
    let mut store = MemoryResource::new();
    store.add_existing_path(String::from("exists.png"));
    let mut v: View<MemoryResource> = View::new(ViewId(1), FileStatus::NoFile, 8, 8, 1, store);
    let storage = FileStorage::Single(String::from("exists.png"));
    let res = v.save_as(&storage);
    assert_eq!(res, Err(Error::AlreadyExists(String::from("exists.png"))));
    assert_eq!(v.file_status, FileStatus::NoFile);
    assert_eq!(v.saved_snapshot, None);
}

#[test]
fn resaving_own_path_is_allowed() {
    let storage = FileStorage::Single(String::from("mine.png"));
    let mut store = MemoryResource::new();
    store.add_existing_path(String::from("mine.png"));
    let mut v: View<MemoryResource> = View::new(
        ViewId(1),
        FileStatus::Modified(storage.clone()),
        8,
        8,
        1,
        store,
    );
    let written = v.save_as(&storage).unwrap();
    assert_eq!(written, 64);
    assert_eq!(v.file_status, FileStatus::Saved(storage));
}

#[test]
fn saving_a_saved_document_is_a_no_op_on_status() {
    let storage = FileStorage::Single(String::from("mine.png"));
    let mut store = MemoryResource::new();
    store.add_existing_path(String::from("mine.png"));
    let mut v: View<MemoryResource> = View::new(
        ViewId(1),
        FileStatus::Saved(storage.clone()),
        8,
        8,
        1,
        store,
    );
    v.saved_snapshot = Some(EditId(7));
    let written = v.save_as(&storage).unwrap();
    assert_eq!(written, 64);
    assert_eq!(v.file_status, FileStatus::Saved(storage));
    // the recorded snapshot is not rebound by a no-op re-save
    assert_eq!(v.saved_snapshot, Some(EditId(7)));
}

#[test]
fn save_to_other_path_does_not_rebind_storage() {
    // A modified document saved to a different path keeps its own storage.
    let own = FileStorage::Single(String::from("mine.png"));
    let mut v: View<MemoryResource> = View::new(
        ViewId(1),
        FileStatus::Modified(own.clone()),
        8,
        8,
        1,
        MemoryResource::new(),
    );
    let elsewhere = FileStorage::Single(String::from("copy.png"));
    let written = v.save_as(&elsewhere).unwrap();
    assert_eq!(written, 64);
    assert_eq!(v.file_status, FileStatus::Modified(own));
    assert_eq!(v.saved_snapshot, None);
}

#[test]
fn range_save_writes_one_frame_per_path() {
    let mut v = fresh_view(8, 8, 1);
    v.extend();
    let storage = FileStorage::Range(vec![String::from("f1.png"), String::from("f2.png")]);
    let written = v.save_as(&storage).unwrap();
    assert_eq!(written, 128);
    assert_eq!(v.file_status, FileStatus::Saved(storage));
    // frame i went to path i, in order
    assert_eq!(
        v.resource.saved,
        vec![
            (0, Rect::new(0, 0, 8, 8), String::from("f1.png")),
            (0, Rect::new(8, 0, 16, 8), String::from("f2.png")),
        ]
    );
}

#[test]
fn archive_save_to_foreign_existing_path_is_refused() {
    // Overwrite protection covers the archive path too: the target exists
    // and is not the document's own storage.
    let mut store = MemoryResource::new();
    store.add_existing_path(String::from("doc.rgz"));
    let mut v: View<MemoryResource> = View::new(ViewId(1), FileStatus::NoFile, 8, 8, 1, store);
    v.push_layer();
    let res = v.save_as(&FileStorage::Single(String::from("doc.rgz")));
    assert_eq!(res, Err(Error::AlreadyExists(String::from("doc.rgz"))));
    assert_eq!(v.file_status, FileStatus::NoFile);
}

#[test]
fn range_save_of_multi_layer_document_is_refused() {
    let mut v = fresh_view(8, 8, 1);
    v.push_layer();
    let storage = FileStorage::Range(vec![String::from("f1.png")]);
    let res = v.save_as(&storage);
    assert_eq!(res, Err(Error::UnsupportedRange));
    assert_eq!(v.file_status, FileStatus::NoFile);
}

#[test]
fn multi_layer_single_save_goes_through_the_archive() {
    let mut v = fresh_view(8, 8, 1);
    v.push_layer();
    let storage = FileStorage::Single(String::from("doc.rgz"));
    // the in-memory archive writer reports zero bytes
    let written = v.save_as(&storage).unwrap();
    assert_eq!(written, 0);
    assert_eq!(v.file_status, FileStatus::Saved(storage));
}

/// A store whose persistence backend always fails.
struct BrokenDisk;

impl ViewResource for BrokenDisk {
    fn has_layer(&self, _layer: LayerId) -> bool {
        false
    }

    fn add_layer(&mut self, _layer: LayerId, _extent: ViewExtent, _pixels: Vec<Rgba8>) {}

    fn current_snapshot(&self, _layer: LayerId) -> Option<(Snapshot, Vec<Rgba8>)> {
        None
    }

    fn snapshot_rect(&self, _layer: LayerId, _rect: &Rect<i32>) -> Option<(Snapshot, Vec<Rgba8>)> {
        None
    }

    fn history_prev(&mut self) -> Option<(EditId, Edit)> {
        None
    }

    fn history_next(&mut self) -> Option<(EditId, Edit)> {
        None
    }

    fn current_edit(&self) -> EditId {
        EditId(0)
    }

    fn create_parent_dirs(&mut self, _path: &String) -> Result<(), Error> {
        Err(Error::Io(String::from("read-only file system")))
    }

    fn path_exists(&self, _path: &String) -> bool {
        false
    }

    fn save_layer(
        &mut self,
        _layer: LayerId,
        _rect: &Rect<u32>,
        _path: &String,
    ) -> Result<(EditId, usize), Error> {
        Err(Error::Io(String::from("read-only file system")))
    }

    fn save_archive(&mut self, _path: &String) -> Result<usize, Error> {
        Err(Error::Io(String::from("read-only file system")))
    }
}

#[test]
fn io_failures_propagate_and_change_nothing() {
    let mut v: View<BrokenDisk> = View::new(ViewId(1), FileStatus::NoFile, 8, 8, 1, BrokenDisk);
    let res = v.save_as(&FileStorage::Single(String::from("a.png")));
    assert_eq!(res, Err(Error::Io(String::from("read-only file system"))));
    assert_eq!(v.file_status, FileStatus::NoFile);
    assert_eq!(v.saved_snapshot, None);
}

#[test]
fn status_text_tags_new_and_modified() {
    let single = FileStorage::Single(String::from("a.png"));
    assert_eq!(FileStatus::NoFile.text(), "");
    assert_eq!(FileStatus::Saved(single.clone()).text(), "a.png");
    assert_eq!(FileStatus::New(single.clone()).text(), "a.png [new]");
    assert_eq!(FileStatus::Modified(single).text(), "a.png [modified]");
    let range = FileStorage::Range(vec![String::from("f1.png"), String::from("f2.png")]);
    assert_eq!(FileStatus::Saved(range).text(), "f1 .. f2.png");
}

#[test]
fn range_text_shows_stem_and_shared_directory() {
    let range = FileStorage::Range(vec![
        String::from("img/walk.0.png"),
        String::from("img/walk.1.png"),
    ]);
    assert_eq!(range.text(), "img/walk.0 .. walk.1.png");

    let scattered = FileStorage::Range(vec![
        String::from("a/x.png"),
        String::from("b/y.png"),
    ]);
    assert_eq!(scattered.text(), "*");
}

#[test]
fn error_text_is_descriptive() {
    assert_eq!(
        Error::AlreadyExists(String::from("a.png")).text(),
        "\"a.png\" already exists"
    );
    assert_eq!(
        Error::UnsupportedRange.text(),
        "range storage is not supported for more than one layer"
    );
    assert_eq!(Error::Io(String::from("disk full")).text(), "disk full");
}

#[test]
fn a_single_path_converts_to_single_storage() {
    let storage = FileStorage::from(String::from("a.png"));
    assert_eq!(storage, FileStorage::Single(String::from("a.png")));
}

#[test]
fn storage_contains_checks_every_path() {
    let range = FileStorage::Range(vec![String::from("a.png"), String::from("b.png")]);
    assert!(range.contains(&String::from("a.png")));
    assert!(range.contains(&String::from("b.png")));
    assert!(!range.contains(&String::from("c.png")));
    let single = FileStorage::Single(String::from("a.png"));
    assert!(single.contains(&String::from("a.png")));
    assert!(!single.contains(&String::from("b.png")));
}
