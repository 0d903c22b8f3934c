use std::collections::HashSet;

use file_organizer::dates::DateTime;
use file_organizer::entries::{
    DirListing, FileMeta, FsNode, MetaInfo, NodeKind, RawEntry, TraversalOp,
};
use file_organizer::file_list::FilesList;

fn stamp(day: u8) -> DateTime {
    DateTime { year: 2024, month: 1, day, hour: 12, minute: 30, second: 15, nanosecond: 500 }
}

fn meta(size: u64) -> MetaInfo {
    MetaInfo::Known(FileMeta { size, created: stamp(1), modified: stamp(2) })
}

fn file(name: &str, size: u64) -> RawEntry {
    RawEntry::Present(FsNode { name: name.to_string(), meta: meta(size), kind: NodeKind::File })
}

fn dir(name: &str, children: Vec<RawEntry>) -> RawEntry {
    RawEntry::Present(FsNode {
        name: name.to_string(),
        meta: meta(0),
        kind: NodeKind::Dir(DirListing::Listed(children)),
    })
}

fn fixture_tree() -> DirListing {
    DirListing::Listed(vec![
        file("a", 10),
        dir(
            "d",
            vec![
                file("b", 20),
                dir(
                    "c",
                    vec![
                        file("e", 30),
                        dir("f", vec![file("g", 40), file("h", 50), file(".hidden_d", 60)]),
                        file(".hidden_c", 70),
                    ],
                ),
                file(".hidden_b", 80),
            ],
        ),
        file("i", 90),
        file(".hidden_a", 100),
    ])
}

fn collect_names(root: DirListing, recursive: bool, hidden: bool) -> HashSet<String> {
    let mut file_list = FilesList::new("file_list", root, recursive, hidden).unwrap();
    let mut result = HashSet::new();
    while let Some(item) = file_list.next() {
        result.insert(item.unwrap().name);
    }
    result
}

#[test]
fn test_iterate_file_list_without_recursion() {
    let result = collect_names(fixture_tree(), false, false);
    let expected: HashSet<String> =
        ["a", "d", "i"].iter().map(|s| s.to_string()).collect();
    assert_eq!(result, expected);
}

#[test]
fn test_iterate_file_list_with_recursion() {
    let result = collect_names(fixture_tree(), true, false);
    let expected: HashSet<String> = ["a", "b", "c", "d", "e", "f", "g", "h", "i"]
        .iter()
        .map(|s| s.to_string())
        .collect();
    assert_eq!(result, expected);
}

#[test]
fn test_iterate_file_list_without_hidden() {
    let result = collect_names(fixture_tree(), true, false);
    let expected: HashSet<String> = ["a", "b", "c", "d", "e", "f", "g", "h", "i"]
        .iter()
        .map(|s| s.to_string())
        .collect();
    assert_eq!(result, expected);
}

#[test]
fn test_iterate_file_list_with_hidden() {
    let result = collect_names(fixture_tree(), true, true);
    let expected: HashSet<String> = [
        "a", "b", "c", "d", "e", "f", "g", "h", "i", ".hidden_a", ".hidden_b", ".hidden_c",
        ".hidden_d",
    ]
    .iter()
    .map(|s| s.to_string())
    .collect();
    assert_eq!(result, expected);
}

fn scenario_tree() -> DirListing {
    DirListing::Listed(vec![
        file("a.txt", 512),
        file("b.log", 2048),
        file(".secret", 64),
        dir("sub", vec![file("c.txt", 128)]),
    ])
}

#[test]
fn test_scenario_non_recursive_non_hidden() {
    let mut file_list = FilesList::new("root", scenario_tree(), false, false).unwrap();
    let mut paths = Vec::new();
    while let Some(item) = file_list.next() {
        paths.push(item.unwrap().path);
    }
    assert_eq!(paths, vec!["root/a.txt", "root/b.log", "root/sub"]);
}

#[test]
fn test_scenario_recursive_hidden() {
    let mut file_list = FilesList::new("root", scenario_tree(), true, true).unwrap();
    let mut paths = Vec::new();
    while let Some(item) = file_list.next() {
        paths.push(item.unwrap().path);
    }
    assert_eq!(
        paths,
        vec!["root/a.txt", "root/b.log", "root/.secret", "root/sub", "root/sub/c.txt"]
    );
}

#[test]
fn test_traversal_yields_directory_entry_before_children() {
    let mut file_list = FilesList::new("root", fixture_tree(), true, false).unwrap();
    let mut names = Vec::new();
    while let Some(item) = file_list.next() {
        names.push(item.unwrap().name);
    }
    let pos = |n: &str| names.iter().position(|x| x == n).unwrap();
    assert!(pos("d") < pos("b"));
    assert!(pos("c") < pos("e"));
    assert!(pos("f") < pos("g"));
    // children are exhausted before earlier-queued siblings resume
    assert!(pos("b") < pos("i") && pos("h") < pos("i"));
}

#[test]
fn test_unopenable_root_fails_at_construction() {
    let err = FilesList::new("root", DirListing::Unopenable, false, false).unwrap_err();
    assert_eq!(err.op, TraversalOp::OpenDir);
    assert_eq!(err.path, "root");
}

#[test]
fn test_unreadable_entry_surfaces_error_and_continues() {
    let root = DirListing::Listed(vec![file("ok1", 1), RawEntry::Unreadable, file("ok2", 2)]);
    let mut file_list = FilesList::new("root", root, false, false).unwrap();
    assert_eq!(file_list.next().unwrap().unwrap().name, "ok1");
    let err = file_list.next().unwrap().unwrap_err();
    assert_eq!(err.op, TraversalOp::ReadEntry);
    assert_eq!(err.path, "root");
    assert_eq!(file_list.next().unwrap().unwrap().name, "ok2");
    assert!(file_list.next().is_none());
}

#[test]
fn test_unreadable_metadata_surfaces_error() {
    let bad = RawEntry::Present(FsNode {
        name: ".odd".to_string(),
        meta: MetaInfo::Unreadable,
        kind: NodeKind::File,
    });
    let root = DirListing::Listed(vec![bad, file("ok", 1)]);
    // the metadata failure is surfaced even though the entry is hidden
    let mut file_list = FilesList::new("root", root, false, false).unwrap();
    let err = file_list.next().unwrap().unwrap_err();
    assert_eq!(err.op, TraversalOp::ReadMetadata);
    assert_eq!(err.path, "root/.odd");
    assert_eq!(file_list.next().unwrap().unwrap().name, "ok");
}

#[test]
fn test_unopenable_directory_surfaces_error_when_descending() {
    let bad = RawEntry::Present(FsNode {
        name: "locked".to_string(),
        meta: meta(0),
        kind: NodeKind::Dir(DirListing::Unopenable),
    });
    let root = DirListing::Listed(vec![bad, file("ok", 1)]);
    let mut recursive = FilesList::new("root", root, true, false).unwrap();
    let err = recursive.next().unwrap().unwrap_err();
    assert_eq!(err.op, TraversalOp::OpenDir);
    assert_eq!(err.path, "root/locked");
    assert_eq!(recursive.next().unwrap().unwrap().name, "ok");

    // without recursion the same directory is yielded, not descended into
    let bad = RawEntry::Present(FsNode {
        name: "locked".to_string(),
        meta: meta(0),
        kind: NodeKind::Dir(DirListing::Unopenable),
    });
    let root = DirListing::Listed(vec![bad, file("ok", 1)]);
    let mut flat = FilesList::new("root", root, false, false).unwrap();
    let entry = flat.next().unwrap().unwrap();
    assert_eq!(entry.name, "locked");
    assert!(entry.is_dir);
}
