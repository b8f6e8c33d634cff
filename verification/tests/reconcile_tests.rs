use polymix_update::datetime::FileDate;
use polymix_update::reconcile::{
    dedup_paths, plan_download, plan_upload, DownloadAction, LocalFile, UploadAction,
};
use polymix_update::records::DBFile;
use std::collections::HashMap;

fn stamp() -> FileDate {
    FileDate { year: 2021, month: 3, day: 5, hour: 4, minute: 7, second: 9, nanosecond: 0 }
}

fn local(name: &str, content: &[u8]) -> LocalFile {
    LocalFile {
        name: name.to_string(),
        date: stamp(),
        size: content.len() as u64,
        is_regular_file: true,
        content: content.to_vec(),
    }
}

fn record(name: &str, content: Option<&[u8]>) -> DBFile {
    DBFile { name: name.to_string(), date: stamp(), content: content.map(|c| c.to_vec()) }
}

fn action_name(a: &UploadAction) -> &str {
    match a {
        UploadAction::Insert(f) => &f.name,
        UploadAction::Update(f) => &f.name,
    }
}

/// Applies a plan to a store model the way the I/O layer does: insert and
/// update both leave the file's record under its name.
fn apply(store: &mut HashMap<String, (FileDate, Vec<u8>)>, plan: Vec<UploadAction>) {
    for action in plan {
        let (f, existed) = match action {
            UploadAction::Insert(f) => (f, false),
            UploadAction::Update(f) => (f, true),
        };
        assert_eq!(store.contains_key(&f.name), existed);
        store.insert(f.name, (f.date, f.content));
    }
}

#[test]
fn insert_update_partition() {
    // Remote has {a.txt}, local has {a.txt, b.txt}: a.txt updates, b.txt inserts.
    let locals = vec![local("a.txt", b"alpha"), local("b.txt", b"beta")];
    let snapshot = vec!["a.txt".to_string()];
    let plan = plan_upload(locals, &snapshot);
    assert_eq!(plan.len(), 2);
    assert!(matches!(&plan[0], UploadAction::Update(f) if f.name == "a.txt"));
    assert!(matches!(&plan[1], UploadAction::Insert(f) if f.name == "b.txt"));
}

#[test]
fn empty_local_set_is_a_noop() {
    let plan = plan_upload(Vec::new(), &vec!["a.txt".to_string()]);
    assert!(plan.is_empty());
}

#[test]
fn upload_is_idempotent() {
    // Uploading the same unchanged local set twice leaves the store as one
    // upload does; the second run performs updates only.
    let mut store: HashMap<String, (FileDate, Vec<u8>)> = HashMap::new();
    store.insert("old.txt".to_string(), (stamp(), b"old".to_vec()));

    let locals = || vec![local("a.txt", b"alpha"), local("old.txt", b"new")];
    let snapshot = |s: &HashMap<String, (FileDate, Vec<u8>)>| {
        s.keys().cloned().collect::<Vec<String>>()
    };

    let first = plan_upload(locals(), &snapshot(&store));
    apply(&mut store, first);
    let after_once = store.clone();

    let second = plan_upload(locals(), &snapshot(&store));
    assert!(second.iter().all(|a| matches!(a, UploadAction::Update(_))));
    apply(&mut store, second);
    assert_eq!(store, after_once);
}

#[test]
fn name_matching_is_case_sensitive() {
    // Identical names up to casing are distinct sync keys: a snapshot with
    // only the other casing still leads to an insert.
    let plan = plan_upload(vec![local("Data.txt", b"x")], &vec!["data.txt".to_string()]);
    assert_eq!(plan.len(), 1);
    assert!(matches!(&plan[0], UploadAction::Insert(f) if f.name == "Data.txt"));

    let both = plan_upload(
        vec![local("Data.txt", b"x"), local("data.txt", b"y")],
        &vec!["data.txt".to_string()],
    );
    assert!(matches!(&both[0], UploadAction::Insert(_)));
    assert!(matches!(&both[1], UploadAction::Update(_)));
}

#[test]
fn plan_keeps_enumeration_order() {
    let locals = vec![local("c", b"1"), local("a", b"2"), local("b", b"3")];
    let plan = plan_upload(locals, &Vec::new());
    let names: Vec<&str> = plan.iter().map(action_name).collect();
    assert_eq!(names, ["c", "a", "b"]);
}

#[test]
fn zero_content_is_skipped() {
    // A record with a null content column writes no file and is reported
    // as skipped, never as an error.
    let plan = plan_download(vec![record("empty.bin", None)]);
    assert_eq!(plan.len(), 1);
    assert!(matches!(&plan[0], DownloadAction::Skip { name } if name == "empty.bin"));
}

#[test]
fn present_content_is_written() {
    let plan = plan_download(vec![record("a.bin", Some(b"payload")), record("b.bin", None)]);
    assert!(
        matches!(&plan[0], DownloadAction::Write { name, content } if name == "a.bin" && content.as_slice() == b"payload")
    );
    assert!(matches!(&plan[1], DownloadAction::Skip { name } if name == "b.bin"));
}

#[test]
fn dedup_keeps_first_occurrence() {
    let paths =
        vec!["a".to_string(), "b".to_string(), "a".to_string(), "c".to_string(), "b".to_string()];
    assert_eq!(dedup_paths(paths), ["a", "b", "c"]);
}

#[test]
fn dedup_is_case_sensitive() {
    let paths = vec!["A.txt".to_string(), "a.txt".to_string()];
    assert_eq!(dedup_paths(paths), ["A.txt", "a.txt"]);
}
