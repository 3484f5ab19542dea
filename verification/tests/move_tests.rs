use timovate::Cli;
use timovate::FileMover;
use timovate::FsEntry;
use timovate::FsNode;
use timovate::MoveAction;
use timovate::OperationMode;
use timovate::age_days_from_secs;

fn file_aged(parent: &str, name: &str, size: u64, age_days: u64) -> FsEntry {
    FsEntry {
        name: name.to_string(),
        path: format!("{}/{}", parent, name),
        node: FsNode::File { size, age_days, mtime_ok: true },
    }
}

fn cli_move(days: &str) -> Cli {
    Cli {
        source: "/source".to_string(),
        temporary: "/temporary".to_string(),
        days: days.to_string(),
        dry_run: false,
        verbose: false,
        mode: OperationMode::Move,
        exclude: None,
    }
}

fn find<'a>(plan: &'a [MoveAction], src: &str) -> Option<&'a MoveAction> {
    plan.iter().find(|a| a.src == src)
}

#[test]
fn test_move_files_older_than_n_days() {
    let tree = vec![
        file_aged("/source", "old_file.txt", 8, 40),
        file_aged("/source", "recent_file.txt", 11, 10),
    ];
    let mut mover = FileMover::new(&cli_move("+30")).unwrap();
    let plan = mover.execute(&tree);

    let old = find(&plan, "/source/old_file.txt").expect("old file should be moved");
    assert_eq!(old.rel, "old_file.txt");
    assert!(find(&plan, "/source/recent_file.txt").is_none());
}

#[test]
fn test_move_files_newer_than_n_days() {
    let tree = vec![
        file_aged("/source", "old_file.txt", 8, 40),
        file_aged("/source", "recent_file.txt", 11, 10),
    ];
    let mut mover = FileMover::new(&cli_move("-30")).unwrap();
    let plan = mover.execute(&tree);

    assert!(find(&plan, "/source/old_file.txt").is_none());
    let recent = find(&plan, "/source/recent_file.txt").expect("recent file should be moved");
    assert_eq!(recent.rel, "recent_file.txt");
}

#[test]
fn test_move_files_exact_n_days() {
    let tree = vec![
        file_aged("/source", "exact_file.txt", 10, 30),
        file_aged("/source", "old_file.txt", 8, 31),
    ];
    let mut mover = FileMover::new(&cli_move("30")).unwrap();
    let plan = mover.execute(&tree);

    let exact = find(&plan, "/source/exact_file.txt").expect("exact file should be moved");
    assert_eq!(exact.rel, "exact_file.txt");
    assert!(find(&plan, "/source/old_file.txt").is_none());
}

#[test]
fn test_dry_run() {
    let tree = vec![file_aged("/source", "old_file.txt", 8, 40)];
    let mut cli = cli_move("+30");
    cli.dry_run = true;
    let mut mover = FileMover::new(&cli).unwrap();
    let plan = mover.execute(&tree);

    // the engine mutates nothing; a dry run differs only in that the caller
    // skips the renames, and the preview reports the same decisions
    assert!(mover.dry_run());
    assert!(find(&plan, "/source/old_file.txt").is_some());
    assert_eq!(mover.stats.files_moved, 1);
}

#[test]
fn test_verbose_mode() {
    let tree = vec![file_aged("/source", "file.txt", 4, 0)];
    let mut cli = cli_move("0");
    cli.verbose = true;
    let mut mover = FileMover::new(&cli).unwrap();
    let plan = mover.execute(&tree);

    let action = find(&plan, "/source/file.txt").expect("file should be moved");
    assert_eq!(action.rel, "file.txt");
}

#[test]
fn test_move_large_number_of_files() {
    let num_files: u64 = 1000;
    let mut tree = Vec::new();
    for i in 0..num_files {
        let days_ago = (i % 60) + 1;
        tree.push(file_aged("/source", &format!("file_{}.txt", i), 12, days_ago));
    }
    let mut mover = FileMover::new(&cli_move("+30")).unwrap();
    let plan = mover.execute(&tree);

    for i in 0..num_files {
        let file_name = format!("file_{}.txt", i);
        let src = format!("/source/{}", file_name);
        let days_ago = (i % 60) + 1;
        if days_ago > 30 {
            let action = find(&plan, &src);
            assert!(action.is_some(), "File {} should be moved", file_name);
            assert_eq!(
                action.unwrap().rel,
                file_name,
                "File {} should be in destination",
                file_name
            );
        } else {
            assert!(find(&plan, &src).is_none(), "File {} should remain", file_name);
        }
    }
}

#[test]
fn test_move_files_at_boundary_conditions() {
    let tree = vec![
        file_aged("/source", "boundary_file.txt", 13, 30),
        file_aged("/source", "just_before_boundary_file.txt", 20, 29),
        file_aged("/source", "just_after_boundary_file.txt", 19, 31),
    ];
    let mut mover = FileMover::new(&cli_move("+30")).unwrap();
    let plan = mover.execute(&tree);

    assert!(
        find(&plan, "/source/boundary_file.txt").is_none(),
        "Boundary file should not be moved"
    );
    assert!(
        find(&plan, "/source/just_before_boundary_file.txt").is_none(),
        "File just before boundary should not be moved"
    );
    let after = find(&plan, "/source/just_after_boundary_file.txt");
    assert!(after.is_some(), "File just after boundary should be moved");
    assert_eq!(
        after.unwrap().rel,
        "just_after_boundary_file.txt",
        "File just after boundary should be in destination"
    );
}

#[test]
fn test_move_files_with_future_modification_times() {
    let now: u64 = 2_000_000_000;
    let tree = vec![
        file_aged(
            "/source",
            "future_file.txt",
            11,
            age_days_from_secs(now, now + 10 * 86400),
        ),
        file_aged("/source", "present_file.txt", 12, age_days_from_secs(now, now)),
    ];
    let mut mover = FileMover::new(&cli_move("+0")).unwrap();
    let plan = mover.execute(&tree);

    assert!(
        find(&plan, "/source/future_file.txt").is_none(),
        "Future file should not be moved"
    );
    assert!(
        find(&plan, "/source/present_file.txt").is_none(),
        "Present file should not be moved"
    );
}

#[test]
fn test_move_files_with_identical_modification_times() {
    let mut tree = Vec::new();
    for i in 0..10 {
        tree.push(file_aged("/source", &format!("file_{}.txt", i), 19, 30));
    }
    let mut mover = FileMover::new(&cli_move("+29")).unwrap();
    let plan = mover.execute(&tree);

    for i in 0..10 {
        let file_name = format!("file_{}.txt", i);
        let action = find(&plan, &format!("/source/{}", file_name));
        assert!(action.is_some(), "File {} should be moved", file_name);
        assert_eq!(
            action.unwrap().rel,
            file_name,
            "File {} should be in destination",
            file_name
        );
    }
}

#[test]
fn test_move_files_with_extreme_modification_times() {
    let now: u64 = 2_000_000_000;
    let tree = vec![
        file_aged("/source", "min_time_file.txt", 13, age_days_from_secs(now, 0)),
        file_aged("/source", "max_time_file.txt", 13, age_days_from_secs(now, now)),
    ];
    let mut mover = FileMover::new(&cli_move("+0")).unwrap();
    let plan = mover.execute(&tree);

    assert!(
        find(&plan, "/source/min_time_file.txt").is_some(),
        "Min time file should be moved"
    );
    assert!(
        find(&plan, "/source/max_time_file.txt").is_none(),
        "Max time file should not be moved"
    );
}

#[test]
fn test_move_files_with_high_resolution_timestamps() {
    // modified 30 days ago less half a second: the half second is lost when
    // the clock is read in whole seconds, and the age floors to 29 days
    let now: u64 = 2_000_000_000;
    let age = age_days_from_secs(now, now - (30 * 86400 - 1));
    let tree = vec![file_aged("/source", "high_res_file.txt", 20, age)];
    let mut mover = FileMover::new(&cli_move("+30")).unwrap();
    let plan = mover.execute(&tree);

    assert!(
        find(&plan, "/source/high_res_file.txt").is_none(),
        "High resolution file should not be moved"
    );
}

#[test]
fn test_move_files_with_no_matching_time_criteria() {
    let tree = vec![file_aged("/source", "recent_file.txt", 11, 10)];
    let mut mover = FileMover::new(&cli_move("+30")).unwrap();
    let plan = mover.execute(&tree);

    assert!(
        find(&plan, "/source/recent_file.txt").is_none(),
        "File should not be moved as it does not match the time criteria"
    );
    assert!(plan.is_empty(), "Destination directory should remain empty");
}

#[test]
fn test_empty_source_directory() {
    let tree: Vec<FsEntry> = Vec::new();
    let mut cli = cli_move("0");
    cli.verbose = true;
    let mut mover = FileMover::new(&cli).unwrap();
    let plan = mover.execute(&tree);

    assert!(
        plan.is_empty(),
        "Program should handle empty source directory without error"
    );
}

#[test]
fn test_move_with_empty_source_directory() {
    let tree: Vec<FsEntry> = Vec::new();
    let mut cli = cli_move("0");
    cli.verbose = true;
    let mut mover = FileMover::new(&cli).unwrap();
    let _plan = mover.execute(&tree);

    assert_eq!(
        mover.stats.files_moved, 0,
        "No files should be moved from an empty source directory"
    );
}

#[test]
fn test_special_characters_in_filenames() {
    let tree = vec![
        file_aged("/source", "file with spaces.txt", 12, 40),
        file_aged("/source", "файл.txt", 12, 40),
    ];
    let mut mover = FileMover::new(&cli_move("+30")).unwrap();
    let plan = mover.execute(&tree);

    let spaces = find(&plan, "/source/file with spaces.txt");
    assert!(spaces.is_some(), "File with spaces should be moved");
    assert_eq!(
        spaces.unwrap().rel,
        "file with spaces.txt",
        "File with spaces should be in destination"
    );
    let unicode = find(&plan, "/source/файл.txt");
    assert!(unicode.is_some(), "Unicode file should be moved");
    assert_eq!(
        unicode.unwrap().rel,
        "файл.txt",
        "Unicode file should be in destination"
    );
}

#[test]
fn test_read_only_files() {
    // permissions do not affect the decision: a read-only file ages and
    // moves like any other
    let tree = vec![file_aged("/source", "readonly_file.txt", 14, 40)];
    let mut mover = FileMover::new(&cli_move("+30")).unwrap();
    let plan = mover.execute(&tree);

    let action = find(&plan, "/source/readonly_file.txt");
    assert!(action.is_some(), "Read-only file should be moved successfully");
    assert_eq!(
        action.unwrap().rel,
        "readonly_file.txt",
        "Read-only file should be in destination"
    );
}

#[test]
fn test_move_files_without_read_permission() {
    // the content is never read, only metadata: an unreadable file still
    // moves when its age matches
    let tree = vec![file_aged("/source", "file.txt", 7, 40)];
    let mut mover = FileMover::new(&cli_move("+30")).unwrap();
    let plan = mover.execute(&tree);

    assert!(
        find(&plan, "/source/file.txt").is_some(),
        "File should be moved to destination"
    );
}

#[test]
fn test_move_files_with_long_file_names() {
    let long_file_name = "a".repeat(255);
    let tree = vec![file_aged("/source", &long_file_name, 14, 40)];
    let mut mover = FileMover::new(&cli_move("+30")).unwrap();
    let plan = mover.execute(&tree);

    let action = find(&plan, &format!("/source/{}", long_file_name));
    assert!(action.is_some(), "File with long name should be moved");
    assert_eq!(
        action.unwrap().rel,
        long_file_name,
        "File with long name should be in destination"
    );
}

#[test]
fn test_move_files_with_hard_links() {
    // a hard link is an ordinary directory entry: both names move
    let tree = vec![
        file_aged("/source", "file.txt", 7, 40),
        file_aged("/source", "hard_link.txt", 7, 40),
    ];
    let mut mover = FileMover::new(&cli_move("+30")).unwrap();
    let plan = mover.execute(&tree);

    let original = find(&plan, "/source/file.txt");
    assert!(original.is_some(), "Original file should be moved");
    let link = find(&plan, "/source/hard_link.txt");
    assert!(link.is_some(), "Hard link should be moved");
    assert_eq!(original.unwrap().rel, "file.txt", "File should be in destination");
    assert_eq!(
        link.unwrap().rel,
        "hard_link.txt",
        "Hard link should be in destination"
    );
}

#[test]
fn test_move_files_with_large_number_of_hard_links() {
    let mut tree = vec![file_aged("/source", "file.txt", 7, 40)];
    for i in 0..10 {
        tree.push(file_aged("/source", &format!("hard_link_{}.txt", i), 7, 40));
    }
    let mut mover = FileMover::new(&cli_move("+30")).unwrap();
    let plan = mover.execute(&tree);

    for i in 0..10 {
        let name = format!("hard_link_{}.txt", i);
        let action = find(&plan, &format!("/source/{}", name));
        assert!(action.is_some(), "Hard link {} should be moved", i);
        assert_eq!(action.unwrap().rel, name, "Hard link {} should be in destination", i);
    }
}

#[test]
fn test_move_hidden_files_on_unix() {
    let tree = vec![file_aged("/source", ".hidden_file", 11, 40)];
    let mut mover = FileMover::new(&cli_move("+30")).unwrap();
    let plan = mover.execute(&tree);

    let action = find(&plan, "/source/.hidden_file");
    assert!(action.is_some(), "Hidden file should be moved");
    assert_eq!(
        action.unwrap().rel,
        ".hidden_file",
        "Hidden file should be in destination"
    );
}

#[test]
fn test_move_files_with_hidden_files() {
    let tree = vec![
        file_aged("/source", ".hidden_file", 11, 40),
        file_aged("/source", "visible_file.txt", 12, 40),
    ];
    let mut mover = FileMover::new(&cli_move("+30")).unwrap();
    let plan = mover.execute(&tree);

    let hidden = find(&plan, "/source/.hidden_file");
    let visible = find(&plan, "/source/visible_file.txt");
    assert!(hidden.is_some(), "Hidden file should be moved");
    assert!(visible.is_some(), "Visible file should be moved");
    assert_eq!(hidden.unwrap().rel, ".hidden_file", "Hidden file should be in destination");
    assert_eq!(
        visible.unwrap().rel,
        "visible_file.txt",
        "Visible file should be in destination"
    );
}

#[test]
fn test_move_files_with_large_file_sizes() {
    let large_file_size: u64 = 100 * 1024 * 1024;
    let tree = vec![file_aged("/source", "large_file.bin", large_file_size, 40)];
    let mut mover = FileMover::new(&cli_move("+30")).unwrap();
    let plan = mover.execute(&tree);

    let action = find(&plan, "/source/large_file.bin");
    assert!(action.is_some(), "Large file should be moved");
    assert_eq!(action.unwrap().rel, "large_file.bin", "Large file should be in destination");
    assert_eq!(
        mover.stats.total_size, large_file_size,
        "Total size should match the size of the large file"
    );
}

#[test]
fn test_move_with_source_as_symbolic_link() {
    // the caller resolves the roots; the engine sees the real directory's
    // entries either way
    let tree = vec![file_aged("/source", "file.txt", 7, 40)];
    let mut mover = FileMover::new(&cli_move("+30")).unwrap();
    let plan = mover.execute(&tree);

    let action = find(&plan, "/source/file.txt");
    assert!(action.is_some(), "File should be moved from the real source directory");
    assert_eq!(action.unwrap().rel, "file.txt", "File should be in destination");
}

#[test]
fn test_move_with_destination_as_symbolic_link() {
    let tree = vec![file_aged("/source", "file.txt", 7, 40)];
    let mut mover = FileMover::new(&cli_move("+30")).unwrap();
    let plan = mover.execute(&tree);

    let action = find(&plan, "/source/file.txt");
    assert!(action.is_some(), "File should be moved from the source directory");
    assert_eq!(
        action.unwrap().rel,
        "file.txt",
        "File should be in the real destination directory"
    );
}
