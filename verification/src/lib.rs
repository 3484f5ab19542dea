//! Relocates files and directories between two directory trees based on
//! file-modification age, a regex exclusion policy, and a reversible
//! move / restore direction, while tracking aggregate statistics.
//!
//! The library is the decision core: it parses the day-count rule, decides
//! which entries of a filesystem snapshot are relocated (individually or as
//! whole subtrees), plans the relocations in breadth-first level order, and
//! accumulates the statistics. Reading the live filesystem into a snapshot
//! and performing the renames are left to the surrounding binary.

mod days;
mod engine;
mod exclude;
mod fstree;
mod laws;
mod numfmt;

pub use days::TimeComparison;
pub use days::age_days_from_secs;
pub use days::age_matches;
pub use days::parse_time_comparison;
pub use days::spec_age_days;
pub use days::spec_age_matches;
pub use days::spec_invalid_days_msg;
pub use days::spec_parse_days;

pub use exclude::CompiledPattern;
pub use exclude::compile_patterns;
pub use exclude::is_excluded;
pub use exclude::spec_excluded;
pub use exclude::spec_invalid_pattern_msg;
pub use exclude::spec_pattern_ok;
pub use exclude::spec_patterns_of;
pub use exclude::spec_regex_match;

pub use fstree::FsEntry;
pub use fstree::FsNode;
pub use fstree::entries_bytes;
pub use fstree::entries_weight;
pub use fstree::node_bytes;
pub use fstree::node_weight;
pub use fstree::sat64;
pub use fstree::sat64_add;
pub use fstree::subtree_size;

pub use engine::ActionModel;
pub use engine::Cli;
pub use engine::FileMover;
pub use engine::FileStats;
pub use engine::ItemModel;
pub use engine::MatchOutcome;
pub use engine::MoveAction;
pub use engine::OperationMode;
pub use engine::Policy;
pub use engine::WorkItem;
pub use engine::items_model;
pub use engine::lemma_entries_pass_prefix;
pub use engine::plan_matches;
pub use engine::spec_all_patterns_ok;
pub use engine::spec_child_items;
pub use engine::spec_count_dirs;
pub use engine::spec_count_files;
pub use engine::spec_entries_pass;
pub use engine::spec_entry_passes;
pub use engine::spec_exclude_views;
pub use engine::spec_file_matches;
pub use engine::spec_item_action;
pub use engine::spec_item_children;
pub use engine::spec_items_weight;
pub use engine::spec_level_actions;
pub use engine::spec_level_children;
pub use engine::spec_plan;
pub use engine::spec_plan_bytes;
pub use engine::spec_policy_of;
pub use engine::spec_root_items;
pub use engine::spec_same_roots_msg;
pub use engine::spec_summary_line;

pub use laws::lemma_action_bytes_are_file_bytes;
pub use laws::lemma_dry_run_plans_alike;
pub use laws::lemma_excluded_descendant_blocks;
pub use laws::lemma_excluded_left_alone;
pub use laws::lemma_failing_entry_blocks_subtree;
pub use laws::lemma_qualifying_subtree_moves_whole;
pub use laws::lemma_restore_ignores_days;
pub use laws::lemma_symlink_left_alone;
pub use laws::lemma_time_comparison_semantics;
pub use laws::lemma_total_size_exact;

pub use numfmt::human_readable_size;
pub use numfmt::spec_digit_char;
pub use numfmt::spec_human_readable;
pub use numfmt::spec_hundredths;
pub use numfmt::spec_size_unit;
pub use numfmt::spec_unit_divisor;
pub use numfmt::spec_unit_name;
pub use numfmt::spec_u64_digits;
pub use numfmt::u64_to_string;
