use watchdog::archive::{
    archive_stamp, classify_archive_name, collect_archives, find_oldest_file_date, plan_archive,
    reported_size, ArchiveName, ArchivePlan, DirFile, ShrinkingCopy, Stamp, MB,
};

fn stamp(month: u32, day: u32, hour: u32, minute: u32) -> Stamp {
    Stamp { year: 2024, month, day, hour, minute }
}

fn entry(s: Stamp, name: &str) -> DirFile {
    DirFile { date_of_creation: s, path: format!("logs/archives/{name}"), name: name.to_string() }
}

#[test]
fn sixteen_archives_evict_only_the_oldest() {
    let mut files = Vec::new();
    for i in 0..16u32 {
        // distinct minutes, oldest at index 9
        let minute = if i == 9 { 0 } else { i + 1 };
        files.push(entry(stamp(3, 1, 12, minute), &format!("log 03-01-24 12:{minute:02}")));
    }
    assert_eq!(plan_archive(&files), ArchivePlan::EvictOldest(9));
}

#[test]
fn fifteen_archives_make_a_new_one() {
    let files: Vec<DirFile> = (0..15u32).map(|i| entry(stamp(1, 1, 0, i), "log x")).collect();
    assert_eq!(plan_archive(&files), ArchivePlan::CreateArchive);
}

#[test]
fn oldest_ties_go_to_first_listed() {
    let files = vec![
        entry(stamp(5, 1, 0, 0), "log a"),
        entry(stamp(4, 1, 0, 0), "log b"),
        entry(stamp(4, 1, 0, 0), "log c"),
    ];
    assert_eq!(find_oldest_file_date(&files), Some(1));
    assert_eq!(find_oldest_file_date(&Vec::new()), None);
}

#[test]
fn oldest_compares_year_first() {
    let files = vec![
        entry(Stamp { year: 2025, month: 1, day: 1, hour: 0, minute: 0 }, "log a"),
        entry(Stamp { year: 2024, month: 12, day: 31, hour: 23, minute: 59 }, "log b"),
    ];
    assert_eq!(find_oldest_file_date(&files), Some(1));
}

#[test]
fn names_are_classified() {
    assert_eq!(classify_archive_name(".DS_Store"), ArchiveName::Ignored);
    assert_eq!(classify_archive_name("notes.txt"), ArchiveName::Foreign);
    assert_eq!(classify_archive_name("log 01-02-24 03:04"), ArchiveName::Archive);
}

#[test]
fn stamp_read_from_name() {
    let now = stamp(9, 9, 9, 9);
    assert_eq!(
        archive_stamp("log 01-02-24 03:04", now),
        Stamp { year: 2024, month: 1, day: 2, hour: 3, minute: 4 }
    );
    assert_eq!(archive_stamp("log garbage", now), now);
}

#[test]
fn listing_keeps_archives_in_order() {
    let now = stamp(9, 9, 9, 9);
    let names = vec![
        "log 12-31-23 23:59".to_string(),
        ".DS_Store".to_string(),
        "readme".to_string(),
        "log broken".to_string(),
    ];
    let files = collect_archives("logs/archives", &names, now);
    assert_eq!(files.len(), 2);
    assert_eq!(files[0].name, "log 12-31-23 23:59");
    assert_eq!(files[0].path, "logs/archives/log 12-31-23 23:59");
    assert_eq!(files[0].date_of_creation, Stamp { year: 2023, month: 12, day: 31, hour: 23, minute: 59 });
    assert_eq!(files[1].name, "log broken");
    assert_eq!(files[1].date_of_creation, now);
}

/// Copies `source` the way archiving does, with a reader that returns at
/// most `chunk` bytes per read.
fn copy_with(source: &[u8], reported: usize, chunk: usize) -> Vec<u8> {
    let mut out = Vec::new();
    let mut pos = 0;
    let mut copy = ShrinkingCopy::new(reported);
    loop {
        let want = copy.buf_len.min(chunk).min(source.len() - pos);
        out.extend_from_slice(&source[pos..pos + want]);
        pos += want;
        if !copy.after_read(want) {
            break;
        }
    }
    out
}

#[test]
fn copy_round_trips_whatever_the_chunks() {
    let source: Vec<u8> = (0..5000u32).map(|i| (i % 251) as u8).collect();
    for chunk in [1, 7, 100, 4096, usize::MAX] {
        assert_eq!(copy_with(&source, source.len(), chunk), source);
        assert_eq!(copy_with(&source, 10, chunk), source);
    }
    assert_eq!(copy_with(&[], 0, 5), Vec::<u8>::new());
}

#[test]
fn copy_buffer_starts_capped_and_halves() {
    assert_eq!(ShrinkingCopy::new(10).buf_len, 10);
    assert_eq!(ShrinkingCopy::new(3 * MB).buf_len, MB);
    let mut c = ShrinkingCopy::new(9);
    assert!(c.after_read(9));
    assert_eq!(c.buf_len, 4);
    assert!(c.after_read(4));
    assert!(c.after_read(2));
    assert_eq!(c.buf_len, 1);
    assert!(c.after_read(1));
    assert_eq!(c.buf_len, 1);
    assert!(!c.after_read(0));
}

#[test]
fn size_falls_back_to_cap() {
    assert_eq!(reported_size(Some(42), 100), 42);
    assert_eq!(reported_size(None, 100), 100);
}
