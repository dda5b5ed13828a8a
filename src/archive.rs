//! Rotation of the log file into a capped archive directory.
use vstd::prelude::*;
use chrono::{Datelike, Timelike};
use crate::text::{contains_seq, replaced, text_contains, text_replace, joined};

verus! {

/// The most archives the directory keeps before the oldest is evicted.
pub const MAX_ARCHIVES: usize = 15;

/// The largest read buffer used while copying a log into the archive.
pub const MB: usize = 1048576;

/// A wall-clock minute, as archive names record it.
#[derive(Clone, Copy, Debug, PartialEq, Eq, Structural)]
pub struct Stamp {
    pub year: i32,
    pub month: u32,
    pub day: u32,
    pub hour: u32,
    pub minute: u32,
}

impl Stamp {
    /// Whether `self` is strictly earlier than `o`.
    pub open spec fn precedes(self, o: Stamp) -> bool {
        if self.year != o.year {
            self.year < o.year
        } else if self.month != o.month {
            self.month < o.month
        } else if self.day != o.day {
            self.day < o.day
        } else if self.hour != o.hour {
            self.hour < o.hour
        } else {
            self.minute < o.minute
        }
    }

    pub fn is_before(&self, o: &Stamp) -> (r: bool)
        ensures
            r == self.precedes(*o),
    {
        if self.year != o.year {
            self.year < o.year
        } else if self.month != o.month {
            self.month < o.month
        } else if self.day != o.day {
            self.day < o.day
        } else if self.hour != o.hour {
            self.hour < o.hour
        } else {
            self.minute < o.minute
        }
    }
}

/// What chrono reads from `text` in the archive name format
/// (`%m-%d-%y %H:%M`), if it reads a date and time there at all.
pub uninterp spec fn archive_stamp_of(text: Seq<char>) -> Option<Stamp>;

/// The format of the date in an archive's name.
pub const ARCHIVE_DATE_FORMAT: &'static str = "%m-%d-%y %H:%M";

/// Relies on chrono's `NaiveDateTime::parse_from_str` with the archive date
/// format; the result depends on the text alone.
#[verifier::external_body]
fn parse_archive_stamp(text: &str) -> (r: Option<Stamp>)
    ensures
        r == archive_stamp_of(text@),
{
    match chrono::NaiveDateTime::parse_from_str(text, ARCHIVE_DATE_FORMAT) {
        Ok(d) => Some(
            Stamp { year: d.year(), month: d.month(), day: d.day(), hour: d.hour(), minute: d.minute() },
        ),
        Err(_) => None,
    }
}

/// How an entry of the archive directory's listing is treated.
#[derive(Clone, Copy, Debug, PartialEq, Eq, Structural)]
pub enum ArchiveName {
    /// Metadata a desktop leaves behind; passed over in silence.
    Ignored,
    /// Not a log archive; passed over with a warning.
    Foreign,
    /// A log archive.
    Archive,
}

pub open spec fn archive_name_kind(name: Seq<char>) -> ArchiveName {
    if contains_seq(name, ".DS_Store"@) {
        ArchiveName::Ignored
    } else if !contains_seq(name, "log"@) {
        ArchiveName::Foreign
    } else {
        ArchiveName::Archive
    }
}

/// The creation time of the archive called `name`: the date in its name,
/// or `now` where the name holds none.
pub open spec fn stamp_for(name: Seq<char>, now: Stamp) -> Stamp {
    match archive_stamp_of(replaced(name, "log "@, Seq::empty())) {
        Some(s) => s,
        None => now,
    }
}

pub fn classify_archive_name(name: &str) -> (r: ArchiveName)
    ensures
        r == archive_name_kind(name@),
{
    if text_contains(name, ".DS_Store") {
        ArchiveName::Ignored
    } else if !text_contains(name, "log") {
        ArchiveName::Foreign
    } else {
        ArchiveName::Archive
    }
}

pub fn archive_stamp(name: &str, now: Stamp) -> (r: Stamp)
    ensures
        r == stamp_for(name@, now),
{
    proof {
        reveal_strlit("log ");
        reveal_strlit("");
        assert(""@ =~= Seq::<char>::empty());
    }
    let key = text_replace(name, "log ", "");
    match parse_archive_stamp(key.as_str()) {
        Some(s) => s,
        None => now,
    }
}

/// An archive found in the archive directory.
pub struct DirFile {
    pub date_of_creation: Stamp,
    pub path: String,
    pub name: String,
}

/// The archives among `names`, in listing order, each with its creation time.
pub open spec fn archive_entries(names: Seq<Seq<char>>, now: Stamp) -> Seq<(Stamp, Seq<char>)>
    decreases names.len(),
{
    if names.len() == 0 {
        Seq::empty()
    } else {
        let rest = archive_entries(names.drop_last(), now);
        let n = names.last();
        if archive_name_kind(n) == ArchiveName::Archive {
            rest.push((stamp_for(n, now), n))
        } else {
            rest
        }
    }
}

pub open spec fn names_of(names: Seq<String>) -> Seq<Seq<char>> {
    names.map_values(|s: String| s@)
}

/// Reads the listing `names` of the archive directory `dir`: the archives
/// among them, in listing order, with their paths and creation times.
pub fn collect_archives(dir: &str, names: &Vec<String>, now: Stamp) -> (r: Vec<DirFile>)
    ensures
        r.len() == archive_entries(names_of(names@), now).len(),
        forall|i: int|
            0 <= i < r.len() ==> {
                &&& (#[trigger] r[i]).date_of_creation == archive_entries(names_of(names@), now)[i].0
                &&& r[i].name@ == archive_entries(names_of(names@), now)[i].1
                &&& r[i].path@ == dir@ + "/"@ + r[i].name@
            },
{
    let mut r: Vec<DirFile> = Vec::new();
    let mut i: usize = 0;
    while i < names.len()
        invariant
            i <= names.len(),
            r.len() == archive_entries(names_of(names@).take(i as int), now).len(),
            forall|k: int|
                0 <= k < r.len() ==> {
                    &&& (#[trigger] r[k]).date_of_creation == archive_entries(names_of(names@).take(i as int), now)[k].0
                    &&& r[k].name@ == archive_entries(names_of(names@).take(i as int), now)[k].1
                    &&& r[k].path@ == dir@ + "/"@ + r[k].name@
                },
        decreases names.len() - i,
    {
        let ghost all = names_of(names@);
        proof {
            assert(all.take(i + 1).drop_last() =~= all.take(i as int));
            assert(all.take(i + 1).last() == names@[i as int]@);
        }
        let name = &names[i];
        if classify_archive_name(name.as_str()) == ArchiveName::Archive {
            let stamp = archive_stamp(name.as_str(), now);
            let path = joined(joined(dir, "/").as_str(), name.as_str());
            r.push(DirFile { date_of_creation: stamp, path, name: name.clone() });
        }
        i = i + 1;
    }
    proof {
        assert(names_of(names@).take(names@.len() as int) =~= names_of(names@));
    }
    r
}

pub open spec fn stamps_of(files: Seq<DirFile>) -> Seq<Stamp> {
    files.map_values(|f: DirFile| f.date_of_creation)
}

/// Whether `i` is the first of `stamps` that no other entry precedes.
pub open spec fn first_oldest(stamps: Seq<Stamp>, i: int) -> bool {
    &&& 0 <= i < stamps.len()
    &&& forall|j: int| 0 <= j < stamps.len() ==> !(#[trigger] stamps[j]).precedes(stamps[i])
    &&& forall|j: int| 0 <= j < i ==> stamps[i].precedes(#[trigger] stamps[j])
}

/// The oldest of `files` by creation time, the earliest listed among equals.
pub fn find_oldest_file_date(files: &Vec<DirFile>) -> (r: Option<usize>)
    ensures
        r is None <==> files.len() == 0,
        r matches Some(i) ==> first_oldest(stamps_of(files@), i as int),
{
    if files.len() == 0 {
        return None;
    }
    let ghost stamps = stamps_of(files@);
    let mut oldest: usize = 0;
    let mut i: usize = 1;
    while i < files.len()
        invariant
            stamps == stamps_of(files@),
            1 <= i <= files.len(),
            oldest < i,
            forall|j: int| 0 <= j < i ==> !(#[trigger] stamps[j]).precedes(stamps[oldest as int]),
            forall|j: int| 0 <= j < oldest ==> stamps[oldest as int].precedes(#[trigger] stamps[j]),
        decreases files.len() - i,
    {
        if files[i].date_of_creation.is_before(&files[oldest].date_of_creation) {
            proof {
                assert forall|j: int| 0 <= j < i + 1 implies !(#[trigger] stamps[j]).precedes(
                    stamps[i as int],
                ) by {
                    lemma_precedes_strict_order(stamps[j], stamps[oldest as int], stamps[i as int]);
                }
                assert forall|j: int| 0 <= j < i implies stamps[i as int].precedes(
                    #[trigger] stamps[j],
                ) by {
                    lemma_precedes_strict_order(stamps[i as int], stamps[oldest as int], stamps[j]);
                }
            }
            oldest = i;
        }
        i = i + 1;
    }
    Some(oldest)
}

/// `precedes` is a strict total order.
pub proof fn lemma_precedes_strict_order(a: Stamp, b: Stamp, c: Stamp)
    ensures
        !a.precedes(a),
        a.precedes(b) ==> !b.precedes(a),
        a.precedes(b) && b.precedes(c) ==> a.precedes(c),
        !a.precedes(b) && !b.precedes(c) ==> !a.precedes(c),
        a != b ==> a.precedes(b) || b.precedes(a),
{
}

/// What archiving does to the archive directory.
#[derive(Clone, Copy, Debug, PartialEq, Eq, Structural)]
pub enum ArchivePlan {
    /// The directory is over its cap: the entry at this index of the
    /// listing is deleted and no archive is written.
    EvictOldest(usize),
    /// The current log is copied into a new archive.
    CreateArchive,
}

/// Whether `plan` is the one for an archive directory holding `stamps`.
pub open spec fn plan_for(stamps: Seq<Stamp>, plan: ArchivePlan) -> bool {
    if stamps.len() > MAX_ARCHIVES {
        plan matches ArchivePlan::EvictOldest(i) && first_oldest(stamps, i as int)
    } else {
        plan == ArchivePlan::CreateArchive
    }
}

/// Decides what archiving does, given the archives already kept.
pub fn plan_archive(files: &Vec<DirFile>) -> (plan: ArchivePlan)
    ensures
        plan_for(stamps_of(files@), plan),
{
    if files.len() > MAX_ARCHIVES {
        match find_oldest_file_date(files) {
            Some(i) => ArchivePlan::EvictOldest(i),
            None => ArchivePlan::CreateArchive,
        }
    } else {
        ArchivePlan::CreateArchive
    }
}

/// A full directory loses exactly its single oldest archive: when the
/// directory holds sixteen archives with distinct creation times, the plan
/// deletes one entry, strictly older than every other, and writes no new
/// archive.
pub proof fn lemma_full_directory_evicts_oldest(stamps: Seq<Stamp>, plan: ArchivePlan)
    requires
        stamps.len() == MAX_ARCHIVES + 1,
        forall|i: int, j: int| 0 <= i < j < stamps.len() ==> stamps[i] != stamps[j],
        plan_for(stamps, plan),
    ensures
        plan != ArchivePlan::CreateArchive,
        plan matches ArchivePlan::EvictOldest(i) && 0 <= i < stamps.len() && forall|j: int|
            0 <= j < stamps.len() && j != i ==> stamps[i as int].precedes(#[trigger] stamps[j]),
{
    if let ArchivePlan::EvictOldest(i) = plan {
        assert forall|j: int| 0 <= j < stamps.len() && j != i implies stamps[i as int].precedes(
            #[trigger] stamps[j],
        ) by {
            assert(stamps[i as int] != stamps[j]);
            lemma_precedes_strict_order(stamps[i as int], stamps[j], stamps[j]);
        }
    }
}

/// The buffer length for the first read of a log of `reported` bytes.
pub open spec fn first_buffer_len(reported: nat) -> nat {
    if reported < MB {
        reported
    } else {
        MB as nat
    }
}

/// The buffer length for the read after one with a buffer of `len`: half
/// of it, and never less than one byte.
pub open spec fn shrunk(len: nat) -> nat {
    if len / 2 >= 1 {
        len / 2
    } else {
        1
    }
}

/// The read loop that copies a log into its archive. It asks for
/// `buf_len` bytes at a time, halving the request after every read that
/// returned data, and stops at the first read that returns nothing, so
/// that a log longer than its reported size is still drained.
pub struct ShrinkingCopy {
    pub buf_len: usize,
}

impl ShrinkingCopy {
    pub fn new(reported_size: usize) -> (c: ShrinkingCopy)
        ensures
            c.buf_len == first_buffer_len(reported_size as nat),
    {
        if reported_size < MB {
            ShrinkingCopy { buf_len: reported_size }
        } else {
            ShrinkingCopy { buf_len: MB }
        }
    }

    /// Takes the length `n` of the read just made; returns whether to read
    /// again.
    pub fn after_read(&mut self, n: usize) -> (more: bool)
        ensures
            more == (n != 0),
            final(self).buf_len == if more { shrunk(old(self).buf_len as nat) } else { old(self).buf_len as nat },
    {
        if n == 0 {
            return false;
        }
        if self.buf_len / 2 >= 1 {
            self.buf_len = self.buf_len / 2;
        } else {
            self.buf_len = 1;
        }
        true
    }
}

/// The log size to plan the copy with: the size the file system reports,
/// or the configured cap where it reports none.
pub fn reported_size(metadata_len: Option<usize>, max_file_size: usize) -> (r: usize)
    ensures
        r == match metadata_len {
            Some(n) => n,
            None => max_file_size,
        },
{
    match metadata_len {
        Some(n) => n,
        None => max_file_size,
    }
}

/// Whether `reads`, the lengths that successive reads returned, is a run of
/// the copy loop over a source holding `rest`, asking for `len` bytes first:
/// each read returns at most what was asked for and what is left, returns
/// nothing only when nothing was asked for or nothing is left, and the run
/// ends with its first empty read.
pub open spec fn copy_run(rest: Seq<u8>, len: nat, reads: Seq<nat>) -> bool
    decreases reads.len(),
{
    if reads.len() == 0 {
        false
    } else {
        let n = reads[0];
        &&& n <= len
        &&& n <= rest.len()
        &&& (n == 0 ==> len == 0 || rest.len() == 0)
        &&& if n == 0 {
            reads.len() == 1
        } else {
            copy_run(rest.skip(n as int), shrunk(len), reads.skip(1))
        }
    }
}

/// The bytes that the run `reads` appends to the archive.
pub open spec fn copied(rest: Seq<u8>, len: nat, reads: Seq<nat>) -> Seq<u8>
    decreases reads.len(),
{
    if reads.len() == 0 || reads[0] == 0 {
        Seq::empty()
    } else {
        rest.take(reads[0] as int) + copied(rest.skip(reads[0] as int), shrunk(len), reads.skip(1))
    }
}

proof fn lemma_run_copies_rest(rest: Seq<u8>, len: nat, reads: Seq<nat>)
    requires
        copy_run(rest, len, reads),
        len >= 1 || rest.len() == 0,
    ensures
        copied(rest, len, reads) == rest,
    decreases reads.len(),
{
    let n = reads[0];
    if n == 0 {
        assert(rest =~= Seq::<u8>::empty());
    } else {
        lemma_run_copies_rest(rest.skip(n as int), shrunk(len), reads.skip(1));
        assert(rest.take(n as int) + rest.skip(n as int) =~= rest);
    }
}

/// Archiving keeps a log's bytes exactly, whatever chunk sizes the reads
/// return: every run of the copy loop over a log of reported size
/// `reported` appends exactly the log's bytes, provided a log reported
/// empty is empty.
pub proof fn lemma_archive_copy_is_exact(source: Seq<u8>, reported: nat, reads: Seq<nat>)
    requires
        copy_run(source, first_buffer_len(reported), reads),
        reported > 0 || source.len() == 0,
    ensures
        copied(source, first_buffer_len(reported), reads) == source,
{
    lemma_run_copies_rest(source, first_buffer_len(reported), reads);
}

} // verus!
