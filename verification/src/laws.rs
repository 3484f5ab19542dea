//! The engine's governing properties, stated and proved once, over the same
//! spec functions its contracts use.

use vstd::prelude::*;

use crate::days::TimeComparison;
use crate::days::spec_age_matches;
use crate::engine::ActionModel;
use crate::engine::Cli;
use crate::engine::ItemModel;
use crate::engine::OperationMode;
use crate::engine::Policy;
use crate::engine::lemma_entries_pass_prefix;
use crate::engine::spec_entry_passes;
use crate::engine::spec_exclude_views;
use crate::engine::spec_file_matches;
use crate::engine::spec_item_action;
use crate::engine::spec_item_children;
use crate::engine::spec_plan;
use crate::engine::spec_plan_bytes;
use crate::engine::spec_policy_of;
use crate::engine::spec_root_items;
use crate::exclude::spec_excluded;
use crate::fstree::FsEntry;
use crate::fstree::FsNode;
use crate::fstree::node_bytes;
use crate::fstree::sat64;

verus! {

/// The age rule means what it says, for every day count and every age:
/// an exact rule holds just at its day count, the strict rules strictly
/// beyond it — so a file exactly `n` days old satisfies neither strict
/// rule for `n`.
pub proof fn lemma_time_comparison_semantics(n: u64, a: u64)
    ensures
        spec_age_matches(TimeComparison::Exact(n), a) <==> a == n,
        spec_age_matches(TimeComparison::MoreThan(n), a) <==> a > n,
        spec_age_matches(TimeComparison::LessThan(n), a) <==> a < n,
        a == n ==> !spec_age_matches(TimeComparison::MoreThan(n), a) && !spec_age_matches(
            TimeComparison::LessThan(n),
            a,
        ),
{
}

/// A dry run is a faithful preview, however often it is repeated: the plan
/// is a function of the direction, the day-count string and the exclusion
/// patterns alone, so two configurations that agree on those — and may
/// disagree on the dry-run flag, the verbose flag and the roots — plan the
/// very same relocations over the same snapshot.
pub proof fn lemma_dry_run_plans_alike(cli1: Cli, cli2: Cli, tree: Seq<FsEntry>)
    requires
        cli1.mode == cli2.mode,
        cli1.days@ == cli2.days@,
        spec_exclude_views(cli1.exclude) == spec_exclude_views(cli2.exclude),
    ensures
        spec_policy_of(cli1) == spec_policy_of(cli2),
        spec_plan(spec_policy_of(cli1), spec_root_items(tree)) == spec_plan(
            spec_policy_of(cli2),
            spec_root_items(tree),
        ),
{
}

/// Subtree atomicity, the qualifying half: a directory whose whole subtree
/// qualifies is relocated as one unit — a single directory action credited
/// with its recursive byte total — and the traversal never descends into
/// it, so none of its files is counted individually.
pub proof fn lemma_qualifying_subtree_moves_whole(p: Policy, it: ItemModel)
    requires
        it.entry.node is Dir,
        spec_entry_passes(p, it.entry),
    ensures
        spec_item_action(p, it) == seq![
            ActionModel {
                src: it.entry.path@,
                rel: it.rel,
                is_dir: true,
                bytes: node_bytes(it.entry.node),
            },
        ],
        spec_item_children(p, it).len() == 0,
{
    assert(!spec_excluded(p.patterns, it.entry.path@));
    assert(spec_item_action(p, it) =~= seq![
        ActionModel {
            src: it.entry.path@,
            rel: it.rel,
            is_dir: true,
            bytes: node_bytes(it.entry.node),
        },
    ]);
}

/// Subtree atomicity, the failing half: one entry that does not pass —
/// a file off the rule, an excluded entry, anything below a subdirectory —
/// keeps the whole directory from being relocated as a unit; the directory
/// itself produces no action at its level and is re-decomposed one level
/// instead.
pub proof fn lemma_failing_entry_blocks_subtree(p: Policy, it: ItemModel, i: int)
    requires
        it.entry.node is Dir,
        0 <= i < it.entry.node->Dir_entries@.len(),
        !spec_entry_passes(p, it.entry.node->Dir_entries@[i]),
    ensures
        !spec_entry_passes(p, it.entry),
        spec_item_action(p, it).len() == 0,
{
    lemma_entries_pass_prefix(p, it.entry.node->Dir_entries@, i);
}

/// Exclusion precedence at the entry itself: an excluded entry is never
/// relocated, whatever its age or kind, and nothing under it is ever
/// visited.
pub proof fn lemma_excluded_left_alone(p: Policy, it: ItemModel)
    requires
        spec_excluded(p.patterns, it.entry.path@),
    ensures
        spec_item_action(p, it).len() == 0,
        spec_item_children(p, it).len() == 0,
        !spec_entry_passes(p, it.entry),
{
}

/// Exclusion precedence below: a directory with an excluded immediate
/// entry never qualifies as a whole, even if everything else in it
/// matches. With [`lemma_failing_entry_blocks_subtree`] this propagates
/// up from any depth.
pub proof fn lemma_excluded_descendant_blocks(p: Policy, it: ItemModel, i: int)
    requires
        it.entry.node is Dir,
        0 <= i < it.entry.node->Dir_entries@.len(),
        spec_excluded(p.patterns, it.entry.node->Dir_entries@[i].path@),
    ensures
        !spec_entry_passes(p, it.entry),
        spec_item_action(p, it).len() == 0,
{
    lemma_excluded_left_alone(
        p,
        ItemModel { entry: it.entry.node->Dir_entries@[i], rel: it.rel },
    );
    lemma_failing_entry_blocks_subtree(p, it, i);
}

/// A symbolic link is never relocated and never followed: its visit
/// produces no action and no children, whichever direction and rule are
/// active.
pub proof fn lemma_symlink_left_alone(p: Policy, it: ItemModel)
    requires
        it.entry.node is Symlink,
    ensures
        spec_item_action(p, it).len() == 0,
        spec_item_children(p, it).len() == 0,
{
}

/// Every relocation is credited with exactly the recursive byte total of
/// the node it moves — the sum of the lengths of the regular files under
/// it, symbolic links excluded; a relocated file is credited its own
/// length.
pub proof fn lemma_action_bytes_are_file_bytes(p: Policy, it: ItemModel)
    ensures
        forall|k: int|
            0 <= k < spec_item_action(p, it).len() ==> #[trigger] spec_item_action(p, it)[k].bytes
                == node_bytes(it.entry.node),
{
}

/// The byte counter reports the plan's total exactly whenever that total
/// fits the counter; only beyond `u64::MAX` does it stop at the maximum.
pub proof fn lemma_total_size_exact(model: Seq<ActionModel>)
    requires
        spec_plan_bytes(model) <= u64::MAX,
    ensures
        sat64(spec_plan_bytes(model) as int) == spec_plan_bytes(model),
{
}

/// In restore direction the day count is ignored entirely: every file
/// satisfies the rule, readable modification time or not.
pub proof fn lemma_restore_ignores_days(p: Policy, age_days: u64, mtime_ok: bool)
    requires
        p.mode is Restore,
    ensures
        spec_file_matches(p, age_days, mtime_ok),
{
}

} // verus!
