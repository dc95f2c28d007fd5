use voidlink::archive::{
    extract_step, normalize_separators, plan_archive, sanitize_entry_name, EntryKind, ExtractStep,
    WalkEntry,
};
use voidlink::exclude::{default_exclusions, file_name_of, should_exclude};
use voidlink::text::chars_of;
use std::collections::BTreeMap;
use std::io::{Cursor, Read, Write};

fn walk(path: &str, kind: EntryKind) -> WalkEntry {
    WalkEntry { rel_path: path.to_string(), kind }
}

fn names(entries: &[WalkEntry]) -> Vec<String> {
    let v: Vec<WalkEntry> = entries.to_vec();
    plan_archive(&v, &default_exclusions()).into_iter().map(|e| e.name).collect()
}

#[test]
fn three_folder_tree_skips_logs() {
    let tree = vec![
        walk("world", EntryKind::Dir),
        walk("world/level.dat", EntryKind::File),
        walk("world/region", EntryKind::Dir),
        walk("world/region/r.0.0.mca", EntryKind::File),
        walk("world_nether", EntryKind::Dir),
        walk("world_nether/DIM-1", EntryKind::Dir),
        walk("world_nether/DIM-1/r.0.0.mca", EntryKind::File),
        walk("logs", EntryKind::Dir),
        walk("logs/latest.log", EntryKind::File),
        walk("logs/2024-01-01-1.log.gz", EntryKind::File),
        walk("logs/notes.txt", EntryKind::File),
    ];
    assert_eq!(
        names(&tree),
        vec![
            "world/",
            "world/level.dat",
            "world/region/",
            "world/region/r.0.0.mca",
            "world_nether/",
            "world_nether/DIM-1/",
            "world_nether/DIM-1/r.0.0.mca",
        ]
    );
}

#[test]
fn server_log_and_logs_dir_left_out_at_any_depth() {
    let tree = vec![
        walk("world/server.log", EntryKind::File),
        walk("world/a/b/c/server.log", EntryKind::File),
        walk("world/a/logs", EntryKind::Dir),
        walk("world/a/logs/x.dat", EntryKind::File),
        walk("world/a/keep.dat", EntryKind::File),
        walk("world/SERVER.LOG", EntryKind::File),
    ];
    assert_eq!(names(&tree), vec!["world/a/keep.dat"]);
}

#[test]
fn plan_keeps_sources_and_kinds() {
    let tree = vec![
        walk("world", EntryKind::Dir),
        walk("world/link", EntryKind::Other),
        walk("world/data.dat", EntryKind::File),
        walk("", EntryKind::Dir),
    ];
    let plan = plan_archive(&tree, &default_exclusions());
    assert_eq!(plan.len(), 2);
    assert_eq!(plan[0].name, "world/");
    assert!(plan[0].is_dir);
    assert_eq!(plan[0].source, 0);
    assert_eq!(plan[1].name, "world/data.dat");
    assert!(!plan[1].is_dir);
    assert_eq!(plan[1].source, 2);
}

#[test]
fn backslashes_become_slashes() {
    assert_eq!(normalize_separators("world\\region\\r.0.0.mca"), "world/region/r.0.0.mca");
    let tree = vec![walk("world\\data", EntryKind::Dir)];
    assert_eq!(names(&tree), vec!["world/data/"]);
}

#[test]
fn empty_walk_plans_nothing() {
    assert!(names(&[]).is_empty());
}

#[test]
fn exclusion_matches_suffix_name_and_substring() {
    let ex = default_exclusions();
    assert!(should_exclude("world/debug.log", &ex));
    assert!(should_exclude("world/old.log.gz", &ex));
    assert!(should_exclude("crash-reports", &ex));
    assert!(should_exclude("world/crash-reports/x.txt", &ex));
    assert!(should_exclude("mods/.cache/blob", &ex));
    assert!(should_exclude("libraries/a.jar", &ex));
    assert!(should_exclude("world/Logs", &ex));
    assert!(!should_exclude("world/level.dat", &ex));
    assert!(!should_exclude("world/region/r.0.0.mca", &ex));
}

#[test]
fn exclusion_patterns_ignore_case() {
    assert!(should_exclude("world/Data.BIN", &["data.bin"]));
    assert!(should_exclude("world/data.bin", &["DATA.BIN"]));
    assert!(!should_exclude("world/data.bin", &[]));
}

#[test]
fn exclusion_exact_name() {
    assert!(should_exclude("a/b/session.lock", &["session.lock"]));
    // the pattern still occurs in the path
    assert!(should_exclude("a/b/session.lock2", &["session.lock"]));
    assert!(!should_exclude("a/b/session.loc", &["session.lock"]));
}

#[test]
fn file_name_is_last_component() {
    assert_eq!(file_name_of(&chars_of("a/b/c.txt")), chars_of("c.txt"));
    assert_eq!(file_name_of(&chars_of("a\\b")), chars_of("b"));
    assert_eq!(file_name_of(&chars_of("plain")), chars_of("plain"));
    assert_eq!(file_name_of(&chars_of("dir/")), chars_of(""));
    assert_eq!(file_name_of(&chars_of("")), chars_of(""));
}

#[test]
fn sanitizing_defangs_climbing_and_absolute_names() {
    assert_eq!(sanitize_entry_name("world/level.dat"), "world/level.dat");
    assert_eq!(sanitize_entry_name("../../etc/passwd"), "etc/passwd");
    assert_eq!(sanitize_entry_name("/abs/path"), "abs/path");
    assert_eq!(sanitize_entry_name("C:\\win\\x.txt"), "win/x.txt");
    assert_eq!(sanitize_entry_name("a/./b//c/"), "a/b/c");
    assert_eq!(sanitize_entry_name(".."), "");
}

#[test]
fn extract_steps_follow_names() {
    match extract_step("world/region/") {
        ExtractStep::MakeDir(p) => assert_eq!(p, "world/region"),
        other => panic!("unexpected {:?}", other),
    }
    match extract_step("world/level.dat") {
        ExtractStep::WriteFile(p) => assert_eq!(p, "world/level.dat"),
        other => panic!("unexpected {:?}", other),
    }
    assert!(matches!(extract_step("../"), ExtractStep::Skip));
    assert!(matches!(extract_step(""), ExtractStep::Skip));
}

#[test]
fn planned_names_extract_to_their_paths() {
    let tree = vec![
        walk("world", EntryKind::Dir),
        walk("world/region", EntryKind::Dir),
        walk("world/region/r.0.0.mca", EntryKind::File),
    ];
    for e in plan_archive(&tree, &default_exclusions()) {
        let walked_path = tree[e.source].rel_path.clone();
        match extract_step(&e.name) {
            ExtractStep::MakeDir(p) => {
                assert!(e.is_dir);
                assert_eq!(p, walked_path);
            }
            ExtractStep::WriteFile(p) => {
                assert!(!e.is_dir);
                assert_eq!(p, walked_path);
            }
            ExtractStep::Skip => panic!("skipped {}", e.name),
        }
    }
}

#[test]
fn zip_round_trip_reproduces_non_excluded_files() {
    let tree = vec![
        (walk("world", EntryKind::Dir), vec![]),
        (walk("world/level.dat", EntryKind::File), b"level".to_vec()),
        (walk("world/region", EntryKind::Dir), vec![]),
        (walk("world/region/r.0.0.mca", EntryKind::File), vec![0u8, 1, 2, 255]),
        (walk("world/server.log", EntryKind::File), b"noise".to_vec()),
        (walk("world_nether", EntryKind::Dir), vec![]),
        (walk("world_nether/empty.txt", EntryKind::File), vec![]),
        (walk("logs", EntryKind::Dir), vec![]),
        (walk("logs/latest.log", EntryKind::File), b"log".to_vec()),
    ];
    let entries: Vec<WalkEntry> = tree.iter().map(|(w, _)| w.clone()).collect();
    let plan = plan_archive(&entries, &default_exclusions());

    let mut writer = zip::ZipWriter::new(Cursor::new(Vec::new()));
    let options = zip::write::SimpleFileOptions::default()
        .compression_method(zip::CompressionMethod::Deflated);
    for e in &plan {
        if e.is_dir {
            writer.add_directory(e.name.as_str(), options).unwrap();
        } else {
            writer.start_file(e.name.as_str(), options).unwrap();
            writer.write_all(&tree[e.source].1).unwrap();
        }
    }
    let bytes = writer.finish().unwrap().into_inner();

    let mut archive = zip::ZipArchive::new(Cursor::new(bytes)).unwrap();
    let mut files = BTreeMap::new();
    let mut dirs = Vec::new();
    for i in 0..archive.len() {
        let mut f = archive.by_index(i).unwrap();
        let step = extract_step(f.name());
        let mut content = Vec::new();
        f.read_to_end(&mut content).unwrap();
        match step {
            ExtractStep::MakeDir(p) => dirs.push(p),
            ExtractStep::WriteFile(p) => {
                files.insert(p, content);
            }
            ExtractStep::Skip => panic!("skipped entry"),
        }
    }
    let mut expected = BTreeMap::new();
    expected.insert("world/level.dat".to_string(), b"level".to_vec());
    expected.insert("world/region/r.0.0.mca".to_string(), vec![0u8, 1, 2, 255]);
    expected.insert("world_nether/empty.txt".to_string(), vec![]);
    assert_eq!(files, expected);
    assert_eq!(dirs, vec!["world", "world/region", "world_nether"]);
}
