use regexfs::attr::FileAttr;
use regexfs::attr::FileKind;
use regexfs::attr::FsError;
use regexfs::attr::CREATE_TIME_SECS;
use regexfs::attr::PERM_READ_ONLY;
use regexfs::filter::Filter;
use regexfs::handlers::read_range;
use regexfs::handlers::DirEntry;
use regexfs::table::DirItem;
use regexfs::table::RegexFS;

fn item(name: &str, is_file: bool) -> DirItem {
    DirItem { name: name.to_string(), is_file }
}

fn txt_table() -> RegexFS {
    let mut fs = RegexFS::new("/host".to_string(), r"\.txt$").unwrap();
    fs.init(vec![
        item("c.txt", true),
        item("b.log", true),
        item("a.txt", true),
        item("sub.txt", false),
    ]);
    fs
}

fn listing_names(fs: &RegexFS) -> Vec<String> {
    let rows = fs.readdir(1, 0, usize::MAX).unwrap();
    rows.into_iter().map(|r: DirEntry| r.name).collect()
}

#[test]
fn filter_compiles_and_matches() {
    let f = Filter::new(r"\.txt$").unwrap();
    assert!(f.matches("a.txt"));
    assert!(!f.matches("b.log"));
    assert!(!f.matches("txt.log"));
}

#[test]
fn invalid_pattern_is_fatal_at_startup() {
    assert!(Filter::new(r"foo(").is_err());
    assert!(RegexFS::new("/host".to_string(), r"foo(").is_err());
}

#[test]
fn listing_holds_exactly_matching_files() {
    let fs = txt_table();
    let names = listing_names(&fs);
    assert_eq!(names, vec![".", "..", "a.txt", "c.txt"]);
}

#[test]
fn listing_is_stable_across_calls() {
    let fs = txt_table();
    assert_eq!(listing_names(&fs), listing_names(&fs));
}

#[test]
fn directories_are_not_listed_even_when_matching() {
    let fs = txt_table();
    assert!(!listing_names(&fs).contains(&"sub.txt".to_string()));
}

#[test]
fn no_matches_leaves_only_dot_and_dotdot() {
    let mut fs = RegexFS::new("/host".to_string(), r"\.txt$").unwrap();
    fs.init(vec![item("b.log", true), item("c.dat", true)]);
    assert_eq!(listing_names(&fs), vec![".", ".."]);
}

#[test]
fn empty_host_directory_leaves_only_dot_and_dotdot() {
    let mut fs = RegexFS::new("/host".to_string(), r".*").unwrap();
    fs.init(vec![]);
    assert_eq!(listing_names(&fs), vec![".", ".."]);
}

#[test]
fn lookup_finds_visible_file() {
    let fs = txt_table();
    let ino = fs.lookup(1, "a.txt").unwrap();
    assert_eq!(ino, 2);
    let ino = fs.lookup(1, "c.txt").unwrap();
    assert_eq!(ino, 3);
}

#[test]
fn lookup_dot_and_dotdot_resolve_to_root() {
    let fs = txt_table();
    assert_eq!(fs.lookup(1, ".").unwrap(), 1);
    assert_eq!(fs.lookup(1, "..").unwrap(), 1);
}

#[test]
fn lookup_filtered_out_name_fails() {
    let fs = txt_table();
    assert_eq!(fs.lookup(1, "b.log"), Err(FsError::NoEnt));
}

#[test]
fn lookup_unknown_name_fails() {
    let fs = txt_table();
    assert_eq!(fs.lookup(1, "missing.txt"), Err(FsError::NoEnt));
}

#[test]
fn lookup_outside_root_fails() {
    let fs = txt_table();
    assert_eq!(fs.lookup(2, "a.txt"), Err(FsError::NoEnt));
}

#[test]
fn getattr_root_is_directory() {
    let fs = txt_table();
    let a = fs.getattr(1, 0).unwrap();
    assert_eq!(a.ino, 1);
    assert_eq!(a.kind, FileKind::Directory);
    assert_eq!(a.size, 0);
    assert_eq!(a.perm, PERM_READ_ONLY);
    assert_eq!(a.mtime_secs, CREATE_TIME_SECS);
}

#[test]
fn getattr_file_reports_given_size() {
    let fs = txt_table();
    let a = fs.getattr(2, 41).unwrap();
    assert_eq!(a.ino, 2);
    assert_eq!(a.kind, FileKind::RegularFile);
    assert_eq!(a.size, 41);
    assert_eq!(a.perm, PERM_READ_ONLY);
    assert_eq!(a.atime_secs, CREATE_TIME_SECS);
    assert_eq!(a.crtime_secs, CREATE_TIME_SECS);
}

#[test]
fn getattr_unknown_inode_fails() {
    let fs = txt_table();
    assert_eq!(fs.getattr(0, 0), Err(FsError::NoEnt));
    assert_eq!(fs.getattr(4, 0), Err(FsError::NoEnt));
    assert_eq!(fs.getattr(99, 0), Err(FsError::NoEnt));
}

#[test]
fn gen_attr_for_entry_synthesizes_fixed_fields() {
    let fs = txt_table();
    let a: FileAttr = fs.gen_attr_for_entry(3, 7);
    assert_eq!(a.ino, 3);
    assert_eq!(a.size, 7);
    assert_eq!(a.kind, FileKind::RegularFile);
    assert_eq!(a.blocks, 0);
    assert_eq!(a.nlink, 0);
    assert_eq!(a.uid, 0);
    assert_eq!(a.gid, 0);
    assert_eq!(a.rdev, 0);
    assert_eq!(a.flags, 0);
}

#[test]
fn ino_exists_covers_root_and_files_only() {
    let fs = txt_table();
    assert!(fs.ino_exists(1));
    assert!(fs.ino_exists(2));
    assert!(fs.ino_exists(3));
    assert!(!fs.ino_exists(0));
    assert!(!fs.ino_exists(4));
}

#[test]
fn is_file_rejects_root_and_unknown() {
    let fs = txt_table();
    assert!(!fs.is_file(1));
    assert!(fs.is_file(2));
    assert!(fs.is_file(3));
    assert!(!fs.is_file(4));
}

#[test]
fn real_path_joins_host_dir_and_name() {
    let fs = txt_table();
    assert_eq!(fs.real_path_for_ino(2), "/host/a.txt");
    assert_eq!(fs.real_path_for_ino(3), "/host/c.txt");
}

#[test]
fn read_full_content_at_offset_zero() {
    let data: Vec<u8> = b"hello, mounted world".to_vec();
    let out = read_range(&data, 0, data.len() as u32);
    assert_eq!(out, data);
    let out = read_range(&data, 0, u32::MAX);
    assert_eq!(out, data);
}

#[test]
fn read_middle_range() {
    let data: Vec<u8> = vec![1, 2, 3, 4, 5];
    assert_eq!(read_range(&data, 1, 3), vec![2, 3, 4]);
    assert_eq!(read_range(&data, 4, 10), vec![5]);
}

#[test]
fn read_at_or_past_end_is_empty_not_error() {
    let data: Vec<u8> = vec![9, 8, 7];
    assert_eq!(read_range(&data, 3, 5), Vec::<u8>::new());
    assert_eq!(read_range(&data, 100, 5), Vec::<u8>::new());
    assert_eq!(read_range(&data, u64::MAX, u32::MAX), Vec::<u8>::new());
}

#[test]
fn lookup_then_full_read_returns_whole_content() {
    let fs = txt_table();
    let ino = fs.lookup(1, "a.txt").unwrap();
    assert!(fs.is_file(ino));
    // The host file's bytes, as the embedding program would read them from
    // the path the table resolves.
    assert_eq!(fs.real_path_for_ino(ino), "/host/a.txt");
    let content: Vec<u8> = b"line one\nline two\n".to_vec();
    let out = read_range(&content, 0, content.len() as u32);
    assert_eq!(out, content);
}

#[test]
fn readdir_outside_root_fails() {
    let fs = txt_table();
    assert!(fs.readdir(2, 0, 10).is_err());
}

#[test]
fn readdir_rows_carry_kinds_and_cursors() {
    let fs = txt_table();
    let rows = fs.readdir(1, 0, usize::MAX).unwrap();
    assert_eq!(rows.len(), 4);
    assert_eq!(rows[0].ino, 1);
    assert_eq!(rows[0].kind, FileKind::Directory);
    assert_eq!(rows[0].next_cursor, 1);
    assert_eq!(rows[1].ino, 1);
    assert_eq!(rows[1].kind, FileKind::Directory);
    assert_eq!(rows[2].ino, 2);
    assert_eq!(rows[2].kind, FileKind::RegularFile);
    assert_eq!(rows[2].name, "a.txt");
    assert_eq!(rows[3].next_cursor, 4);
}

#[test]
fn readdir_resumed_with_last_cursor_enumerates_each_entry_once() {
    let fs = txt_table();
    for batch in 1..6usize {
        let mut seen: Vec<String> = Vec::new();
        let mut cursor: u64 = 0;
        loop {
            let rows = fs.readdir(1, cursor, batch).unwrap();
            if rows.is_empty() {
                break;
            }
            cursor = rows[rows.len() - 1].next_cursor;
            for r in rows {
                seen.push(r.name);
            }
        }
        assert_eq!(seen, vec![".", "..", "a.txt", "c.txt"]);
    }
}

#[test]
fn readdir_from_nonzero_cursor_skips_consumed_entries() {
    let fs = txt_table();
    let rows = fs.readdir(1, 2, usize::MAX).unwrap();
    let names: Vec<String> = rows.into_iter().map(|r| r.name).collect();
    assert_eq!(names, vec!["a.txt", "c.txt"]);
    let rows = fs.readdir(1, 9, usize::MAX).unwrap();
    assert!(rows.is_empty());
}
