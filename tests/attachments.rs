use investown_admin::attachment::{
    AttachmentAction, AttachmentCollection, AttachmentEntry, EntryStatus,
};
use investown_admin::pipeline::{AttachmentPipeline, PipelineConfig, ReadJob, SelectedFile};

fn jpeg() -> String {
    "image/jpeg".to_string()
}

fn pipeline() -> AttachmentPipeline {
    AttachmentPipeline::new(PipelineConfig {
        accepted_mime_types: vec![jpeg()],
        upload_endpoint: "admin/investments/picture".to_string(),
    })
}

fn file(name: &str, mime: &str) -> SelectedFile {
    SelectedFile { name: name.to_string(), mime: mime.to_string() }
}

fn entries(c: &AttachmentCollection) -> Vec<&AttachmentEntry> {
    (0..c.len()).map(|i| c.get(i)).collect()
}

fn ids(c: &AttachmentCollection) -> Vec<u128> {
    (0..c.len()).map(|i| c.get(i).id).collect()
}

fn snapshot_equal(a: &AttachmentCollection, b: &AttachmentCollection) -> bool {
    entries(a) == entries(b)
}

fn two_files(p: &mut AttachmentPipeline) -> Vec<ReadJob> {
    p.add_files(&vec![file("a.jpg", "image/jpeg"), file("b.jpg", "image/jpeg")], &vec![1, 2])
}

#[test]
fn add_enters_added() {
    let mut c = AttachmentCollection::new();
    c.apply(AttachmentAction::Add(1, "a.jpg".to_string(), jpeg()));
    c.apply(AttachmentAction::Add(2, "b.jpg".to_string(), jpeg()));
    assert_eq!(ids(&c), vec![1, 2]);
    assert_eq!(c.get(0).status, EntryStatus::Added);
    assert_eq!(c.get(1).status, EntryStatus::Added);
    assert_eq!(c.get(0).name, "a.jpg");
    assert!(c.get(0).bytes.is_none() && c.get(0).remote_path.is_none());
}

#[test]
fn add_refuses_duplicate_id() {
    let mut c = AttachmentCollection::new();
    c.apply(AttachmentAction::Add(1, "a.jpg".to_string(), jpeg()));
    c.apply(AttachmentAction::Add(1, "other.jpg".to_string(), jpeg()));
    assert_eq!(c.len(), 1);
    assert_eq!(c.get(0).name, "a.jpg");
}

#[test]
fn reduce_leaves_old_snapshot() {
    let mut c = AttachmentCollection::new();
    c.apply(AttachmentAction::Add(1, "a.jpg".to_string(), jpeg()));
    let next = c.reduce(AttachmentAction::BytesLoaded(1, vec![1, 2, 3]));
    assert_eq!(c.get(0).bytes, None);
    assert_eq!(next.get(0).bytes, Some(vec![1, 2, 3]));
    assert_eq!(next.get(0).status, EntryStatus::Loaded);
}

#[test]
fn reads_out_of_order_keep_add_order() {
    let mut p = pipeline();
    let jobs = two_files(&mut p);
    assert_eq!(jobs, vec![ReadJob { id: 1, file: 0 }, ReadJob { id: 2, file: 1 }]);
    assert_eq!(p.collection().get(0).status, EntryStatus::Reading);
    p.on_read_complete(2, Ok(vec![2]));
    p.on_read_complete(1, Ok(vec![1]));
    assert_eq!(p.collection().get(0).status, EntryStatus::Loaded);
    assert_eq!(p.collection().get(1).status, EntryStatus::Loaded);
    let uploads = p.start_uploads();
    assert_eq!(uploads.iter().map(|j| j.id).collect::<Vec<_>>(), vec![1, 2]);
    assert_eq!(uploads[0].bytes, vec![1]);
    assert_eq!(uploads[0].name, "a.jpg");
    p.on_upload_complete(1, Ok("path/a".to_string()));
    p.on_upload_complete(2, Ok("path/b".to_string()));
    assert_eq!(p.publish(), Some(vec!["path/a".to_string(), "path/b".to_string()]));
}

#[test]
fn move_before_reads_reorders_paths() {
    let mut p = pipeline();
    two_files(&mut p);
    p.dispatch(AttachmentAction::Move(0, 1));
    p.on_read_complete(1, Ok(vec![1]));
    p.on_read_complete(2, Ok(vec![2]));
    p.start_uploads();
    p.on_upload_complete(1, Ok("path/a".to_string()));
    p.on_upload_complete(2, Ok("path/b".to_string()));
    assert_eq!(p.collection().confirmed_paths(), vec!["path/b".to_string(), "path/a".to_string()]);
}

#[test]
fn read_failure_is_terminal() {
    let mut p = pipeline();
    p.add_files(&vec![file("a.jpg", "image/jpeg")], &vec![1]);
    p.on_read_complete(1, Err("unreadable".to_string()));
    assert_eq!(p.collection().get(0).status, EntryStatus::Failed("unreadable".to_string()));
    assert!(p.collection().confirmed_paths().is_empty());
    assert!(p.start_uploads().is_empty());
    assert_eq!(p.publish(), None);
}

#[test]
fn completion_after_removal_ignored() {
    let mut p = pipeline();
    p.add_files(&vec![file("a.jpg", "image/jpeg")], &vec![1]);
    p.on_read_complete(1, Ok(vec![9]));
    assert_eq!(p.start_uploads().len(), 1);
    p.dispatch(AttachmentAction::Remove(1));
    let before = p.collection().snapshot();
    p.on_upload_complete(1, Ok("path/a".to_string()));
    assert!(snapshot_equal(&before, p.collection()));
    assert_eq!(p.collection().len(), 0);
}

#[test]
fn moves_keep_identity() {
    let mut c = AttachmentCollection::new();
    for id in 1..=3u128 {
        c.apply(AttachmentAction::Add(id, format!("{id}.jpg"), jpeg()));
        c.apply(AttachmentAction::BytesLoaded(id, vec![id as u8]));
    }
    c.apply(AttachmentAction::Uploaded(2, "path/2".to_string()));
    for (from, to) in [(0, 2), (1, 0), (2, 1), (5, 0)] {
        c.apply(AttachmentAction::Move(from, to));
    }
    let mut seen: Vec<u128> = ids(&c);
    seen.sort();
    assert_eq!(seen, vec![1, 2, 3]);
    for e in entries(&c) {
        assert_eq!(e.bytes, Some(vec![e.id as u8]));
        assert_eq!(e.remote_path.is_some(), e.id == 2);
    }
}

#[test]
fn move_out_of_range_rejected() {
    let mut c = AttachmentCollection::new();
    c.apply(AttachmentAction::Add(1, "a.jpg".to_string(), jpeg()));
    c.apply(AttachmentAction::Add(2, "b.jpg".to_string(), jpeg()));
    c.apply(AttachmentAction::Move(0, 2));
    c.apply(AttachmentAction::Move(2, 0));
    assert_eq!(ids(&c), vec![1, 2]);
    c.apply(AttachmentAction::Move(1, 0));
    assert_eq!(ids(&c), vec![2, 1]);
}

#[test]
fn confirmed_view_only_uploaded() {
    let mut c = AttachmentCollection::new();
    for id in 1..=4u128 {
        c.apply(AttachmentAction::Add(id, format!("{id}.jpg"), jpeg()));
        c.apply(AttachmentAction::BytesLoaded(id, vec![1]));
    }
    c.apply(AttachmentAction::Uploaded(3, "p3".to_string()));
    c.apply(AttachmentAction::Uploaded(1, "p1".to_string()));
    c.apply(AttachmentAction::Failed(2, "rejected".to_string()));
    c.apply(AttachmentAction::UploadStarted(4));
    assert_eq!(c.confirmed_paths(), vec!["p1".to_string(), "p3".to_string()]);
}

#[test]
fn upload_claimed_once() {
    let mut p = pipeline();
    two_files(&mut p);
    p.on_read_complete(1, Ok(vec![1]));
    assert_eq!(p.start_uploads().len(), 1);
    assert!(p.start_uploads().is_empty());
    p.dispatch(AttachmentAction::UploadStarted(1));
    p.on_read_complete(2, Ok(vec![2]));
    let again = p.start_uploads();
    assert_eq!(again.len(), 1);
    assert_eq!(again[0].id, 2);
    assert!(p.collection().get(0).upload_started);
}

#[test]
fn absent_ids_change_nothing() {
    let mut c = AttachmentCollection::new();
    c.apply(AttachmentAction::Add(1, "a.jpg".to_string(), jpeg()));
    let before = c.snapshot();
    c.apply(AttachmentAction::BytesLoaded(7, vec![1]));
    c.apply(AttachmentAction::Uploaded(7, "p".to_string()));
    c.apply(AttachmentAction::Failed(7, "x".to_string()));
    c.apply(AttachmentAction::Remove(7));
    assert!(snapshot_equal(&before, &c));
}

#[test]
fn later_upload_first_keeps_order() {
    let mut p = pipeline();
    two_files(&mut p);
    p.on_read_complete(1, Ok(vec![1]));
    p.on_read_complete(2, Ok(vec![2]));
    p.start_uploads();
    p.on_upload_complete(2, Ok("path/b".to_string()));
    assert_eq!(p.publish(), Some(vec!["path/b".to_string()]));
    p.on_upload_complete(1, Ok("path/a".to_string()));
    assert_eq!(p.publish(), Some(vec!["path/a".to_string(), "path/b".to_string()]));
    assert_eq!(p.publish(), None);
}

#[test]
fn write_once_fields_and_terminal_failure() {
    let mut c = AttachmentCollection::new();
    c.apply(AttachmentAction::Add(1, "a.jpg".to_string(), jpeg()));
    c.apply(AttachmentAction::BytesLoaded(1, vec![1]));
    c.apply(AttachmentAction::BytesLoaded(1, vec![2]));
    assert_eq!(c.get(0).bytes, Some(vec![1]));
    c.apply(AttachmentAction::Uploaded(1, "first".to_string()));
    c.apply(AttachmentAction::Uploaded(1, "second".to_string()));
    assert_eq!(c.get(0).remote_path, Some("first".to_string()));
    c.apply(AttachmentAction::Add(2, "b.jpg".to_string(), jpeg()));
    c.apply(AttachmentAction::Failed(2, "no".to_string()));
    c.apply(AttachmentAction::BytesLoaded(2, vec![3]));
    assert_eq!(c.get(1).bytes, None);
    assert_eq!(c.get(1).status, EntryStatus::Failed("no".to_string()));
}

#[test]
fn unsupported_type_never_enters() {
    let mut p = pipeline();
    let jobs = p.add_files(
        &vec![file("a.png", "image/png"), file("b.jpg", "image/jpeg")],
        &vec![1, 2],
    );
    assert_eq!(jobs, vec![ReadJob { id: 2, file: 1 }]);
    assert_eq!(ids(p.collection()), vec![2]);
    assert!(p.is_accepted(&jpeg()));
    assert!(!p.is_accepted(&"image/png".to_string()));
}

#[test]
fn selected_files_get_fresh_ids() {
    let mut p = pipeline();
    let jobs = p.select_files(&vec![
        file("a.jpg", "image/jpeg"),
        file("x.gif", "image/gif"),
        file("b.jpg", "image/jpeg"),
    ]);
    assert_eq!(jobs.len(), 2);
    assert_eq!(jobs[0].file, 0);
    assert_eq!(jobs[1].file, 2);
    assert_ne!(jobs[0].id, jobs[1].id);
    assert_eq!(ids(p.collection()), vec![jobs[0].id, jobs[1].id]);
    assert_eq!(p.upload_endpoint(), "admin/investments/picture");
}
