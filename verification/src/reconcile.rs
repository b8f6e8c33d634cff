use vstd::prelude::*;
use crate::datetime::FileDate;
use crate::records::DBFile;
use crate::text::{lower_of, str_views};

verus! {

/// One file found in the local directory during an upload run: the path
/// string as enumeration reported it (the synchronization key), its
/// modification time, size, whether it is a regular file, and its full
/// content, read eagerly.
pub struct LocalFile {
    pub name: String,
    pub date: FileDate,
    pub size: u64,
    pub is_regular_file: bool,
    pub content: Vec<u8>,
}

/// What a stored record holds once a local file has been written to it: the
/// file's timestamp and content. The model of the store is a map from name
/// to this.
pub ghost struct StoredFile {
    pub date: FileDate,
    pub content: Seq<u8>,
}

/// The record a local file writes.
pub open spec fn stored(f: LocalFile) -> StoredFile {
    StoredFile { date: f.date, content: f.content@ }
}

/// The set of names a snapshot of the store's keys holds.
pub open spec fn name_set(names: Seq<String>) -> Set<Seq<char>> {
    Set::new(|n: Seq<char>| exists|i: int| 0 <= i < names.len() && names[i]@ == n)
}

/// The names of a local file sequence.
pub open spec fn local_names(local: Seq<LocalFile>) -> Set<Seq<char>> {
    Set::new(|n: Seq<char>| exists|i: int| 0 <= i < local.len() && local[i].name@ == n)
}

/// One step of an upload: write this file's record, as a fresh row or over
/// an existing one.
pub enum UploadAction {
    /// The name was absent from the snapshot: insert a new record.
    Insert(LocalFile),
    /// The name was present: overwrite that record's timestamp and content.
    Update(LocalFile),
}

/// The file an action carries.
pub open spec fn action_file(a: UploadAction) -> LocalFile {
    match a {
        UploadAction::Insert(f) => f,
        UploadAction::Update(f) => f,
    }
}

/// The decision for one local file: update iff its name is in the snapshot
/// of the store's keys taken before the run, insert otherwise.
pub open spec fn decide(f: LocalFile, snapshot: Set<Seq<char>>) -> UploadAction {
    if snapshot.contains(f.name@) {
        UploadAction::Update(f)
    } else {
        UploadAction::Insert(f)
    }
}

/// The upload plan: one action per local file, in enumeration order, each
/// decided against the same snapshot.
pub open spec fn plan_spec(local: Seq<LocalFile>, snapshot: Set<Seq<char>>) -> Seq<UploadAction> {
    local.map_values(|f: LocalFile| decide(f, snapshot))
}

/// Whether some name of the vector equals the target, byte for byte.
fn names_contain(names: &Vec<String>, target: &String) -> (r: bool)
    ensures
        r == name_set(names@).contains(target@),
{
    let n = names.len();
    for i in 0..n
        invariant
            n == names@.len(),
            forall|j: int| 0 <= j < i ==> (#[trigger] names@[j])@ != target@,
    {
        if names[i].eq(target) {
            assert(names@[i as int]@ == target@);
            return true;
        }
    }
    false
}

/// Plans an upload of the local files against a snapshot of the names the
/// store already holds, taken once before the batch: the file whose name is
/// in the snapshot is updated, every other file is inserted. The empty local
/// set yields the empty plan — a no-op, not an error.
pub fn plan_upload(local: Vec<LocalFile>, snapshot: &Vec<String>) -> (r: Vec<UploadAction>)
    ensures
        r@ == plan_spec(local@, name_set(snapshot@)),
{
    let mut local = local;
    let ghost orig = local@;
    let ghost snap = name_set(snapshot@);
    let mut out: Vec<UploadAction> = Vec::new();
    let n0 = local.len();
    proof {
        assert(orig.len() == n0);
        assert(out@ =~= plan_spec(orig.take(0), snap));
    }
    let mut k: usize = 0;
    while local.len() > 0
        invariant
            orig.len() <= usize::MAX,
            k + local@.len() == orig.len(),
            local@ == orig.skip(k as int),
            out@ == plan_spec(orig.take(k as int), snap),
            snap == name_set(snapshot@),
        decreases local@.len(),
    {
        let f = local.remove(0);
        proof {
            assert(f == orig[k as int]);
            assert(orig.skip(k as int).skip(1) =~= orig.skip(k + 1));
        }
        if names_contain(snapshot, &f.name) {
            out.push(UploadAction::Update(f));
        } else {
            out.push(UploadAction::Insert(f));
        }
        proof {
            assert(out@ =~= plan_spec(orig.take(k as int), snap).push(
                decide(orig[k as int], snap),
            ));
            assert(plan_spec(orig.take(k + 1), snap) =~= plan_spec(orig.take(k as int), snap).push(
                decide(orig[k as int], snap),
            ));
        }
        k = k + 1;
    }
    proof {
        assert(orig.take(orig.len() as int) =~= orig);
    }
    out
}

/// The store after one action: the file's record now holds its name, its
/// timestamp and its content, whether the action was an insert or an update.
pub open spec fn apply_action(store: Map<Seq<char>, StoredFile>, a: UploadAction) -> Map<
    Seq<char>,
    StoredFile,
> {
    store.insert(action_file(a).name@, stored(action_file(a)))
}

/// The store after a plan's actions, applied in order.
pub open spec fn apply_actions(store: Map<Seq<char>, StoredFile>, actions: Seq<UploadAction>) -> Map<
    Seq<char>,
    StoredFile,
>
    decreases actions.len(),
{
    if actions.len() == 0 {
        store
    } else {
        apply_action(apply_actions(store, actions.drop_last()), actions.last())
    }
}

/// The records a local file sequence writes, a later file overriding an
/// earlier one of the same name.
pub open spec fn local_records(local: Seq<LocalFile>) -> Map<Seq<char>, StoredFile>
    decreases local.len(),
{
    if local.len() == 0 {
        Map::empty()
    } else {
        local_records(local.drop_last()).insert(local.last().name@, stored(local.last()))
    }
}

/// Applying an upload plan overlays the local files' records onto the
/// store, whatever snapshot the plan was decided against: the snapshot
/// picks insert or update, never what is written.
pub proof fn lemma_apply_plan(
    store: Map<Seq<char>, StoredFile>,
    local: Seq<LocalFile>,
    snapshot: Set<Seq<char>>,
)
    ensures
        apply_actions(store, plan_spec(local, snapshot)) == store.union_prefer_right(
            local_records(local),
        ),
    decreases local.len(),
{
    if local.len() == 0 {
        assert(plan_spec(local, snapshot) =~= Seq::<UploadAction>::empty());
        assert(store.union_prefer_right(Map::empty()) =~= store);
    } else {
        let l1 = local.drop_last();
        let last = local.last();
        lemma_apply_plan(store, l1, snapshot);
        assert(plan_spec(local, snapshot).drop_last() =~= plan_spec(l1, snapshot));
        assert(plan_spec(local, snapshot).last() == decide(last, snapshot));
        assert(store.union_prefer_right(local_records(l1)).insert(last.name@, stored(last)) =~= store
            .union_prefer_right(local_records(l1).insert(last.name@, stored(last))));
    }
}

/// The names the local files' records cover are exactly the local names.
pub proof fn lemma_local_records_dom(local: Seq<LocalFile>)
    ensures
        local_records(local).dom() == local_names(local),
    decreases local.len(),
{
    if local.len() == 0 {
        assert(local_records(local).dom() =~= local_names(local));
    } else {
        let l1 = local.drop_last();
        lemma_local_records_dom(l1);
        assert forall|n: Seq<char>| local_names(local).contains(n) implies local_records(
            local,
        ).dom().contains(n) by {
            let i = choose|i: int| 0 <= i < local.len() && local[i].name@ == n;
            if i < local.len() - 1 {
                assert(l1[i].name@ == n);
                assert(local_names(l1).contains(n));
            }
        }
        assert forall|n: Seq<char>| local_records(local).dom().contains(n) implies local_names(
            local,
        ).contains(n) by {
            if n == local.last().name@ {
                assert(local[local.len() - 1].name@ == n);
            } else {
                assert(local_names(l1).contains(n));
                let i = choose|i: int| 0 <= i < l1.len() && l1[i].name@ == n;
                assert(local[i].name@ == n);
            }
        }
        assert(local_records(local).dom() =~= local_names(local));
    }
}

/// Law: uploading the same unchanged local file set twice leaves the same
/// stored records as uploading it once. The second run overwrites each
/// record with the same timestamp and content; it inserts nothing new.
pub proof fn lemma_upload_idempotent(store: Map<Seq<char>, StoredFile>, local: Seq<LocalFile>)
    ensures
        ({
            let once = apply_actions(store, plan_spec(local, store.dom()));
            let twice = apply_actions(once, plan_spec(local, once.dom()));
            twice == once
        }),
{
    let m = local_records(local);
    let once = apply_actions(store, plan_spec(local, store.dom()));
    lemma_apply_plan(store, local, store.dom());
    lemma_apply_plan(once, local, once.dom());
    assert(store.union_prefer_right(m).union_prefer_right(m) =~= store.union_prefer_right(m));
}

/// Law (beside `lemma_upload_idempotent`): after an upload of a local file
/// set, a second plan for the same unchanged set decides every file as an
/// update — never a duplicate insert.
pub proof fn lemma_second_run_updates(
    store: Map<Seq<char>, StoredFile>,
    local: Seq<LocalFile>,
    i: int,
)
    requires
        0 <= i < local.len(),
    ensures
        plan_spec(local, apply_actions(store, plan_spec(local, store.dom())).dom())[i] is Update,
{
    let once = apply_actions(store, plan_spec(local, store.dom()));
    lemma_apply_plan(store, local, store.dom());
    lemma_local_records_dom(local);
    assert(local_names(local).contains(local[i].name@));
    assert(once.dom().contains(local[i].name@));
}

/// Law: the plan partitions the local files by the snapshot. A file's
/// record is inserted iff its name is absent from the snapshot taken before
/// the run and updated otherwise, and each action carries its file
/// unchanged, in enumeration order.
pub proof fn lemma_insert_update_partition(local: Seq<LocalFile>, snapshot: Set<Seq<char>>)
    ensures
        plan_spec(local, snapshot).len() == local.len(),
        forall|i: int|
            0 <= i < local.len() ==> ((#[trigger] plan_spec(local, snapshot)[i]) is Insert
                <==> !snapshot.contains(local[i].name@)),
        forall|i: int|
            0 <= i < local.len() ==> action_file(#[trigger] plan_spec(local, snapshot)[i])
                == local[i],
{
}

/// Law: the synchronization key is the exact name. A snapshot that holds
/// only a name differing from the file's in casing alone — Unicode-folding
/// to the same string, yet not equal — does not turn the upload into an
/// update: the file is inserted under its own name. Case is folded only
/// for mode-name lookup and pattern matching, never for the key.
pub proof fn lemma_sync_key_exact(f: LocalFile, other: Seq<char>, snapshot: Set<Seq<char>>)
    requires
        lower_of(f.name@) == lower_of(other),
        f.name@ != other,
        snapshot == set![other],
    ensures
        plan_spec(seq![f], snapshot)[0] is Insert,
{
    assert(!snapshot.contains(f.name@));
    assert(plan_spec(seq![f], snapshot)[0] == decide(f, snapshot));
}

/// One step of a download: write the record's content to a local file of
/// the record's name, or skip the record because it has no payload.
pub enum DownloadAction {
    /// Overwrite (or create) the local file of this name with this content.
    Write { name: String, content: Vec<u8> },
    /// Report the record as "zero length, skipped" and write nothing: its
    /// content column was null. This is policy, not an error.
    Skip { name: String },
}

/// The decision for one fetched record: write its content where it has
/// some, skip it where the content is absent.
pub open spec fn download_decision(f: DBFile) -> DownloadAction {
    match f.content {
        Some(c) => DownloadAction::Write { name: f.name, content: c },
        None => DownloadAction::Skip { name: f.name },
    }
}

/// Plans a download of records already filtered to the mode's patterns:
/// one decision per record, in order.
pub fn plan_download(records: Vec<DBFile>) -> (r: Vec<DownloadAction>)
    ensures
        r@ == records@.map_values(|f: DBFile| download_decision(f)),
{
    let mut records = records;
    let ghost orig = records@;
    let mut out: Vec<DownloadAction> = Vec::new();
    let n0 = records.len();
    proof {
        assert(orig.len() == n0);
        assert(out@ =~= orig.take(0).map_values(|f: DBFile| download_decision(f)));
    }
    let mut k: usize = 0;
    while records.len() > 0
        invariant
            orig.len() <= usize::MAX,
            k + records@.len() == orig.len(),
            records@ == orig.skip(k as int),
            out@ == orig.take(k as int).map_values(|f: DBFile| download_decision(f)),
        decreases records@.len(),
    {
        let f = records.remove(0);
        proof {
            assert(f == orig[k as int]);
            assert(orig.skip(k as int).skip(1) =~= orig.skip(k + 1));
        }
        match f.content {
            Some(content) => {
                let name = f.name;
                out.push(DownloadAction::Write { name, content });
            },
            None => {
                let name = f.name;
                out.push(DownloadAction::Skip { name });
            },
        }
        proof {
            assert(out@ =~= orig.take(k as int).map_values(|f2: DBFile| download_decision(f2)).push(
                download_decision(orig[k as int]),
            ));
            assert(orig.take(k + 1).map_values(|f2: DBFile| download_decision(f2)) =~= orig.take(
                k as int,
            ).map_values(|f2: DBFile| download_decision(f2)).push(
                download_decision(orig[k as int]),
            ));
        }
        k = k + 1;
    }
    proof {
        assert(orig.take(orig.len() as int) =~= orig);
        assert(orig.take(orig.len() as int).map_values(|f: DBFile| download_decision(f)) == orig
            .map_values(|f: DBFile| download_decision(f)));
    }
    out
}

/// Law: a record whose content is absent is always skipped — its download
/// decision is never a write and never an error.
pub proof fn lemma_zero_content_skip(f: DBFile)
    requires
        f.content is None,
    ensures
        download_decision(f) is Skip,
{
}

/// The paths with exact duplicates removed, the first occurrence kept, in
/// order.
pub open spec fn dedup_spec(paths: Seq<Seq<char>>) -> Seq<Seq<char>>
    decreases paths.len(),
{
    if paths.len() == 0 {
        Seq::empty()
    } else {
        let rest = dedup_spec(paths.drop_last());
        if rest.contains(paths.last()) {
            rest
        } else {
            rest.push(paths.last())
        }
    }
}

/// Whether some element of the vector equals the target, byte for byte.
fn vec_contains_str(v: &Vec<String>, target: &String) -> (r: bool)
    ensures
        r == exists|i: int| 0 <= i < v@.len() && (#[trigger] v@[i])@ == target@,
{
    let n = v.len();
    for i in 0..n
        invariant
            n == v@.len(),
            forall|j: int| 0 <= j < i ==> (#[trigger] v@[j])@ != target@,
    {
        if v[i].eq(target) {
            assert(v@[i as int]@ == target@);
            return true;
        }
    }
    false
}

/// Removes exact duplicates from the enumerated paths, keeping the first
/// occurrence of each: two overlapping patterns can yield the same path
/// twice, and one file must be considered once.
pub fn dedup_paths(paths: Vec<String>) -> (r: Vec<String>)
    ensures
        str_views(r@) == dedup_spec(str_views(paths@)),
{
    let mut paths = paths;
    let ghost orig = str_views(paths@);
    let mut out: Vec<String> = Vec::new();
    let n0 = paths.len();
    proof {
        assert(orig.len() == n0);
        assert(orig.take(0) =~= Seq::<Seq<char>>::empty());
        assert(str_views(out@) =~= dedup_spec(orig.take(0)));
    }
    let mut k: usize = 0;
    while paths.len() > 0
        invariant
            orig.len() <= usize::MAX,
            k + paths@.len() == orig.len(),
            str_views(paths@) == orig.skip(k as int),
            str_views(out@) == dedup_spec(orig.take(k as int)),
        decreases paths@.len(),
    {
        let ghost prev = paths@;
        let p = paths.remove(0);
        proof {
            assert(p@ == str_views(prev)[0]);
            assert(p@ == orig[k as int]);
            assert(paths@ =~= prev.skip(1));
            assert forall|i: int| 0 <= i < paths@.len() implies #[trigger] str_views(paths@)[i]
                == orig.skip(k + 1)[i] by {
                assert(paths@[i] == prev[i + 1]);
                assert(str_views(prev)[i + 1] == prev[i + 1]@);
                assert(str_views(prev)[i + 1] == orig.skip(k as int)[i + 1]);
            }
            assert(str_views(paths@) =~= orig.skip(k + 1));
            assert(orig.take(k + 1).drop_last() =~= orig.take(k as int));
        }
        let ghost dd = dedup_spec(orig.take(k as int));
        let present = vec_contains_str(&out, &p);
        proof {
            if present {
                let i = choose|i: int| 0 <= i < out@.len() && out@[i]@ == p@;
                assert(str_views(out@)[i] == p@);
                assert(dd.contains(orig[k as int]));
            } else {
                assert forall|i: int| 0 <= i < dd.len() implies dd[i] != orig[k as int] by {
                    assert(out@[i]@ == dd[i]);
                }
                assert(!dd.contains(orig[k as int]));
            }
        }
        if !present {
            let ghost m_old = str_views(out@);
            out.push(p);
            proof {
                assert(str_views(out@) =~= m_old.push(orig[k as int]));
            }
        }
        proof {
            assert(str_views(out@) == dedup_spec(orig.take(k + 1)));
        }
        k = k + 1;
    }
    proof {
        assert(orig.take(orig.len() as int) =~= orig);
    }
    out
}

} // verus!
