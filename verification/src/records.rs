use vstd::prelude::*;
use crate::datetime::{date_display, FileDate};
use crate::errors::SyncError;
use crate::pattern::{set_matches, PatternSet};

verus! {

/// One record of the store's table: a file name (the unique key), the last
/// modification timestamp, and the binary content where it was fetched and
/// the column was non-null. A record whose content column is null is a
/// placeholder without payload, not an error.
#[derive(Debug)]
pub struct DBFile {
    pub name: String,
    pub date: FileDate,
    pub content: Option<Vec<u8>>,
}

/// The predicate a pattern set puts on a record: its name matches the set.
pub open spec fn matches_pred(patterns: Seq<Seq<char>>) -> spec_fn(DBFile) -> bool {
    |f: DBFile| set_matches(patterns, f.name@)
}

/// Keeps the records whose name matches the pattern set, in their original
/// order: a pure in-memory filter, with no store round trip.
pub fn filter_by_pattern(records: Vec<DBFile>, patterns: &PatternSet) -> (r: Vec<DBFile>)
    ensures
        r@ == records@.filter(matches_pred(patterns@)),
{
    let mut records = records;
    let mut out: Vec<DBFile> = Vec::new();
    let ghost orig = records@;
    let ghost pred = matches_pred(patterns@);
    let n0 = records.len();
    proof {
        assert(orig.len() == n0);
        assert(orig.take(0) =~= Seq::<DBFile>::empty());
        reveal(Seq::filter);
    }
    let mut k: usize = 0;
    while records.len() > 0
        invariant
            orig.len() <= usize::MAX,
            k + records@.len() == orig.len(),
            records@ == orig.skip(k as int),
            out@ == orig.take(k as int).filter(pred),
            pred == matches_pred(patterns@),
        decreases records@.len(),
    {
        let f = records.remove(0);
        proof {
            assert(f == orig[k as int]);
            assert(orig.skip(k as int).skip(1) =~= orig.skip(k + 1));
            assert(orig.take(k + 1).drop_last() =~= orig.take(k as int));
            assert(orig.take(k + 1).last() == orig[k as int]);
            reveal(Seq::filter);
        }
        if patterns.matches(f.name.as_str()) {
            assert(pred(f));
            out.push(f);
        } else {
            assert(!pred(f));
        }
        k = k + 1;
    }
    proof {
        assert(orig.take(orig.len() as int) =~= orig);
    }
    out
}

/// Interprets the fields of one fetched row. An absent date — a
/// non-nullable column — is a store-layer defect and fails the run; it is
/// never silently defaulted. An absent name is tolerated as the empty
/// string for display robustness only: the store enforces that real keys
/// are present and unique. An absent content column stays absent — the
/// column is nullable, and not every query fetches it.
pub fn interpret_row(name: Option<String>, date: Option<FileDate>, content: Option<Vec<u8>>) -> (r:
    Result<DBFile, SyncError>)
    ensures
        date is None ==> r == Err::<DBFile, SyncError>(SyncError::DataIntegrity),
        date matches Some(d) ==> r matches Ok(f) && f.date == d && f.content == content && (match name {
            Some(n) => f.name == n,
            None => f.name@ == Seq::<char>::empty(),
        }),
{
    match date {
        None => Err(SyncError::DataIntegrity),
        Some(d) => {
            let file_name = match name {
                Some(n) => n,
                None => String::new(),
            };
            Ok(DBFile { name: file_name, date: d, content })
        },
    }
}

/// The outcome of fetching one record's content by name: no row at all means
/// the file does not exist in the store, while a row whose content column is
/// null is a record without payload and is returned as such.
pub fn content_result(row: Option<Option<Vec<u8>>>) -> (r: Result<Option<Vec<u8>>, SyncError>)
    ensures
        row is None ==> r == Err::<Option<Vec<u8>>, SyncError>(SyncError::FileNotFound),
        row matches Some(c) ==> r == Ok::<Option<Vec<u8>>, SyncError>(c),
{
    match row {
        None => Err(SyncError::FileNotFound),
        Some(c) => Ok(c),
    }
}

/// One line of the listing: the record's name, a tab, and its timestamp as
/// `dd/mm/yyyy hh:mm:ss`.
pub open spec fn list_line(f: DBFile) -> Seq<char> {
    f.name@ + seq!['\t'] + date_display(f.date)
}

/// Renders the listing for a set of records already filtered to the mode's
/// patterns: one line per record, in order, and the count of records to be
/// reported after them. Zero records is a valid outcome, reported as a
/// count of zero.
pub fn list_report(records: &Vec<DBFile>) -> (r: (Vec<String>, usize))
    requires
        forall|i: int| 0 <= i < records@.len() ==> (#[trigger] records@[i]).date.wellformed(),
    ensures
        r.1 == records@.len(),
        r.0@.len() == records@.len(),
        forall|i: int| 0 <= i < records@.len() ==> (#[trigger] r.0@[i])@ == list_line(records@[i]),
{
    let n = records.len();
    let mut lines: Vec<String> = Vec::new();
    for i in 0..n
        invariant
            n == records@.len(),
            lines@.len() == i,
            forall|i2: int| 0 <= i2 < n ==> (#[trigger] records@[i2]).date.wellformed(),
            forall|j: int| 0 <= j < i ==> (#[trigger] lines@[j])@ == list_line(records@[j]),
    {
        let mut line = records[i].name.clone();
        line.append("\t");
        let stamp = records[i].date.format();
        line.append(stamp.as_str());
        proof {
            reveal_strlit("\t");
            assert("\t"@ =~= seq!['\t']);
            assert(line@ =~= list_line(records@[i as int]));
        }
        lines.push(line);
    }
    (lines, n)
}

/// How many records of a sequence match the pattern set.
pub open spec fn matching_count(records: Seq<DBFile>, patterns: Seq<Seq<char>>) -> nat
    decreases records.len(),
{
    if records.len() == 0 {
        0
    } else {
        matching_count(records.drop_last(), patterns) + if set_matches(
            patterns,
            records.last().name@,
        ) {
            1nat
        } else {
            0nat
        }
    }
}

/// Law: the count the listing reports — the length of the filtered record
/// sequence, which `list_report` returns beside the lines — equals the
/// number of records whose name matches the pattern set, for any record
/// sequence.
pub proof fn lemma_list_count(records: Seq<DBFile>, patterns: Seq<Seq<char>>)
    ensures
        records.filter(matches_pred(patterns)).len() == matching_count(records, patterns),
    decreases records.len(),
{
    reveal(Seq::filter);
    if records.len() > 0 {
        lemma_list_count(records.drop_last(), patterns);
    }
}

} // verus!
