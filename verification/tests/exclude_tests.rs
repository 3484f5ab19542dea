use timovate::Cli;
use timovate::FileMover;
use timovate::FsEntry;
use timovate::FsNode;
use timovate::MoveAction;
use timovate::OperationMode;

fn file_aged(parent: &str, name: &str, size: u64, age_days: u64) -> FsEntry {
    FsEntry {
        name: name.to_string(),
        path: format!("{}/{}", parent, name),
        node: FsNode::File { size, age_days, mtime_ok: true },
    }
}

fn dir_of(parent: &str, name: &str, entries: Vec<FsEntry>) -> FsEntry {
    FsEntry {
        name: name.to_string(),
        path: format!("{}/{}", parent, name),
        node: FsNode::Dir { readable: true, entries },
    }
}

fn cli_excluding(days: &str, patterns: &[&str]) -> Cli {
    Cli {
        source: "/source".to_string(),
        temporary: "/temporary".to_string(),
        days: days.to_string(),
        dry_run: false,
        verbose: true,
        mode: OperationMode::Move,
        exclude: Some(patterns.iter().map(|p| p.to_string()).collect()),
    }
}

fn find<'a>(plan: &'a [MoveAction], src: &str) -> Option<&'a MoveAction> {
    plan.iter().find(|a| a.src == src)
}

#[test]
fn test_exclude_regex_files() {
    let tree = vec![
        file_aged("/source", "exclude_me.txt", 10, 40),
        file_aged("/source", "include_me.txt", 10, 40),
    ];
    let cli = cli_excluding("+30", &["exclude_me\\.txt$"]);
    let mut mover = FileMover::new(&cli).unwrap();
    let plan = mover.execute(&tree);

    assert!(
        find(&plan, "/source/exclude_me.txt").is_none(),
        "Excluded file should not be moved"
    );
    let action = find(&plan, "/source/include_me.txt");
    assert!(action.is_some(), "Included file should be moved");
    assert_eq!(
        action.unwrap().rel,
        "include_me.txt",
        "Included file should be in destination"
    );
}

#[test]
fn test_exclude_regex_directories() {
    let tree = vec![
        dir_of(
            "/source",
            "exclude_dir",
            vec![file_aged("/source/exclude_dir", "old_file.txt", 8, 40)],
        ),
        dir_of(
            "/source",
            "include_dir",
            vec![file_aged("/source/include_dir", "old_file.txt", 8, 40)],
        ),
    ];
    let cli = cli_excluding("+30", &["exclude_dir$"]);
    let mut mover = FileMover::new(&cli).unwrap();
    let plan = mover.execute(&tree);

    assert!(
        find(&plan, "/source/exclude_dir").is_none(),
        "Excluded directory should not be moved"
    );
    assert!(
        find(&plan, "/source/exclude_dir/old_file.txt").is_none(),
        "Files in excluded directory should not be moved"
    );
    let action = find(&plan, "/source/include_dir");
    assert!(action.is_some(), "Included directory should be moved");
    assert_eq!(
        action.unwrap().rel,
        "include_dir",
        "Included directory should be in destination"
    );
}

#[test]
fn test_invalid_regex_pattern() {
    let cli = cli_excluding("0", &["*invalid["]);
    let result = FileMover::new(&cli);
    assert!(
        result.is_err(),
        "Program should panic due to invalid regex pattern"
    );
}

#[test]
fn test_invalid_regex_pattern_message() {
    let cli = cli_excluding("0", &["*invalid["]);
    match FileMover::new(&cli) {
        Err(msg) => assert!(
            msg.starts_with("Invalid regex pattern '*invalid[': "),
            "the message should name the pattern"
        ),
        Ok(_) => panic!("construction should fail"),
    }
}

#[test]
fn test_move_files_with_multiple_exclude_patterns() {
    let tree = vec![
        file_aged("/source", "file1.log", 8, 40),
        file_aged("/source", "file2.tmp", 14, 40),
        file_aged("/source", "file3.txt", 9, 40),
    ];
    let cli = cli_excluding("+30", &["\\.log$", "\\.tmp$"]);
    let mut mover = FileMover::new(&cli).unwrap();
    let plan = mover.execute(&tree);

    assert!(find(&plan, "/source/file1.log").is_none(), "Log file should be excluded");
    assert!(
        find(&plan, "/source/file2.tmp").is_none(),
        "Temporary file should be excluded"
    );
    let action = find(&plan, "/source/file3.txt");
    assert!(action.is_some(), "Text file should be moved");
    assert_eq!(action.unwrap().rel, "file3.txt", "Text file should be in destination");
}

#[test]
fn test_move_files_with_empty_exclude_list() {
    let tree = vec![
        file_aged("/source", "file1.txt", 6, 40),
        file_aged("/source", "file2.txt", 6, 40),
    ];
    let cli = cli_excluding("+30", &[]);
    let mut mover = FileMover::new(&cli).unwrap();
    let plan = mover.execute(&tree);

    let first = find(&plan, "/source/file1.txt");
    let second = find(&plan, "/source/file2.txt");
    assert!(first.is_some(), "File1 should be moved");
    assert!(second.is_some(), "File2 should be moved");
    assert_eq!(first.unwrap().rel, "file1.txt", "File1 should be in destination");
    assert_eq!(second.unwrap().rel, "file2.txt", "File2 should be in destination");
}

#[test]
fn test_move_files_with_recursive_exclude_patterns() {
    let tree = vec![dir_of(
        "/source",
        "dir",
        vec![dir_of(
            "/source/dir",
            "subdir",
            vec![
                file_aged("/source/dir/subdir", "exclude_me.txt", 10, 40),
                file_aged("/source/dir/subdir", "include_me.txt", 10, 40),
            ],
        )],
    )];
    let cli = cli_excluding("+30", &["exclude_me\\.txt$"]);
    let mut mover = FileMover::new(&cli).unwrap();
    let plan = mover.execute(&tree);

    // the excluded descendant poisons every ancestor, so the traversal
    // descends level by level and moves only the includable leaf
    assert!(find(&plan, "/source/dir").is_none());
    assert!(find(&plan, "/source/dir/subdir").is_none());
    assert!(
        find(&plan, "/source/dir/subdir/exclude_me.txt").is_none(),
        "Excluded file should not be moved"
    );
    let action = find(&plan, "/source/dir/subdir/include_me.txt");
    assert!(action.is_some(), "Included file should be moved");
    assert_eq!(
        action.unwrap().rel,
        "dir/subdir/include_me.txt",
        "Included file should be in destination"
    );
}

#[test]
fn test_excluded_directory_contents_stay_unvisited() {
    // the exclusion stops the descent entirely: even files in the excluded
    // directory that would match by age are never visited
    let tree = vec![
        dir_of(
            "/source",
            "kept",
            vec![file_aged("/source/kept", "a.txt", 3, 40)],
        ),
        file_aged("/source", "b.txt", 4, 40),
    ];
    let cli = cli_excluding("+30", &["kept$"]);
    let mut mover = FileMover::new(&cli).unwrap();
    let plan = mover.execute(&tree);

    assert_eq!(plan.len(), 1);
    assert!(find(&plan, "/source/kept/a.txt").is_none());
    assert_eq!(mover.stats.files_moved, 1);
    assert_eq!(mover.stats.total_size, 4);
}
