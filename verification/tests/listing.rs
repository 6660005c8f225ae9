use file_server::listing::{files_listing, is_dir, EntryKind, FsEntry, Stat};

fn entry(name: &str, stat: Stat) -> FsEntry {
    FsEntry { name: Some(name.to_string()), stat }
}

#[test]
fn only_a_regular_file_is_no_directory() {
    assert!(!is_dir(Stat::File));
    assert!(is_dir(Stat::Other));
    assert!(is_dir(Stat::Failed));
}

#[test]
fn kind_follows_the_metadata() {
    assert_eq!(entry("a", Stat::File).kind(), EntryKind::File);
    assert_eq!(entry("a", Stat::Other).kind(), EntryKind::Dir);
    assert_eq!(entry("a", Stat::Failed).kind(), EntryKind::Dir);
}

#[test]
fn empty_directory_has_an_empty_listing() {
    assert_eq!(files_listing(&vec![]), "");
}

#[test]
fn each_child_has_one_tagged_line() {
    let entries = vec![entry("src", Stat::Other), entry("Cargo.toml", Stat::File)];
    assert_eq!(files_listing(&entries), "DIR  src\nFILE Cargo.toml\n");
}

#[test]
fn order_of_enumeration_is_kept() {
    let entries = vec![entry("b", Stat::File), entry("a", Stat::File), entry("c", Stat::Other)];
    assert_eq!(files_listing(&entries), "FILE b\nFILE a\nDIR  c\n");
}

#[test]
fn child_with_failed_metadata_is_listed_as_directory() {
    let entries = vec![entry("dangling", Stat::Failed)];
    assert_eq!(files_listing(&entries), "DIR  dangling\n");
}

#[test]
fn child_without_a_name_in_valid_text_is_skipped() {
    let entries = vec![
        entry("first", Stat::File),
        FsEntry { name: None, stat: Stat::File },
        FsEntry { name: None, stat: Stat::Other },
        entry("last", Stat::Other),
    ];
    assert_eq!(files_listing(&entries), "FILE first\nDIR  last\n");
}

#[test]
fn names_are_written_as_they_are() {
    let entries = vec![entry("", Stat::File), entry("with space", Stat::File), entry("\u{e9}", Stat::Other)];
    assert_eq!(files_listing(&entries), "FILE \nFILE with space\nDIR  \u{e9}\n");
}

#[test]
fn listing_has_as_many_lines_as_named_children() {
    let entries: Vec<FsEntry> = (0..50).map(|i| entry(&format!("f{}", i), if i % 3 == 0 { Stat::Other } else { Stat::File })).collect();
    let text = files_listing(&entries);
    let lines: Vec<&str> = text.lines().collect();
    assert_eq!(lines.len(), 50);
    for (i, line) in lines.iter().enumerate() {
        let tag = if i % 3 == 0 { "DIR  " } else { "FILE " };
        assert_eq!(*line, format!("{}f{}", tag, i));
    }
}
