//! The traversal-and-matching engine: which entries of a snapshot are
//! relocated, planned breadth-first one level at a time, and the statistics
//! of the planned relocations.

use vstd::prelude::*;
use vstd::string::StringExecFns;

use crate::days::TimeComparison;
use crate::days::age_matches;
use crate::days::parse_time_comparison;
use crate::days::spec_age_matches;
use crate::days::spec_invalid_days_msg;
use crate::days::spec_parse_days;
use crate::exclude::CompiledPattern;
use crate::exclude::compile_patterns;
use crate::exclude::is_excluded;
use crate::exclude::spec_excluded;
use crate::exclude::spec_invalid_pattern_msg;
use crate::exclude::spec_pattern_ok;
use crate::exclude::spec_patterns_of;
use crate::fstree::FsEntry;
use crate::fstree::FsNode;
use crate::fstree::entries_weight;
use crate::fstree::node_bytes;
use crate::fstree::node_weight;
use crate::fstree::sat64;
use crate::fstree::sat64_add;
use crate::fstree::subtree_size;
use crate::numfmt::human_readable_size;
use crate::numfmt::spec_human_readable;
use crate::numfmt::spec_u64_digits;
use crate::numfmt::u64_to_string;

verus! {

/// The direction of a run: move ages files out of the source tree into the
/// temporary tree; restore brings everything back.
#[derive(Clone, Copy, Debug, PartialEq, Eq, Structural)]
pub enum OperationMode {
    Move,
    Restore,
}

/// The resolved configuration an engine is built from.
pub struct Cli {
    pub source: String,
    pub temporary: String,
    pub days: String,
    pub dry_run: bool,
    pub verbose: bool,
    pub mode: OperationMode,
    pub exclude: Option<Vec<String>>,
}

/// The three counters fed by every planned relocation.
#[derive(Clone, Copy, Debug, PartialEq, Eq, Structural)]
pub struct FileStats {
    pub files_moved: u64,
    pub dirs_moved: u64,
    pub total_size: u64,
}

impl Default for FileStats {
    fn default() -> (r: Self)
        ensures
            r.files_moved == 0 && r.dirs_moved == 0 && r.total_size == 0,
    {
        FileStats { files_moved: 0, dirs_moved: 0, total_size: 0 }
    }
}

/// The relocation engine: direction, age rule, exclusion filter, flags, and
/// the statistics of its last run.
pub struct FileMover {
    source: String,
    temporary: String,
    time_comparison: TimeComparison,
    dry_run: bool,
    verbose: bool,
    mode: OperationMode,
    exclude_regex: Vec<CompiledPattern>,
    pub stats: FileStats,
}

/// What a run's decisions depend on: the direction, the age rule, and the
/// exclusion pattern texts. Notably absent: the dry-run flag — a dry run
/// plans exactly what a live run plans.
pub struct Policy {
    pub mode: OperationMode,
    pub cmp: TimeComparison,
    pub patterns: Seq<Seq<char>>,
}

/// One planned relocation, in the ghost model: the absolute source path,
/// the path relative to the traversal root, whether a whole directory is
/// moved, and the exact byte total credited for it.
pub struct ActionModel {
    pub src: Seq<char>,
    pub rel: Seq<char>,
    pub is_dir: bool,
    pub bytes: nat,
}

/// One entry awaiting a visit, in the ghost model.
pub struct ItemModel {
    pub entry: FsEntry,
    pub rel: Seq<char>,
}

/// One planned relocation as the caller receives it; `bytes` is the credited
/// total clamped into a `u64`.
#[derive(Debug, Clone, PartialEq, Eq)]
pub struct MoveAction {
    pub src: String,
    pub rel: String,
    pub is_dir: bool,
    pub bytes: u64,
}

impl MoveAction {
    /// Whether this action realises the given planned relocation.
    pub open spec fn matches(self, m: ActionModel) -> bool {
        &&& self.src@ == m.src
        &&& self.rel@ == m.rel
        &&& self.is_dir == m.is_dir
        &&& self.bytes == sat64(m.bytes as int)
    }
}

/// Whether a produced plan realises the planned relocations, one for one,
/// in order.
pub open spec fn plan_matches(plan: Seq<MoveAction>, model: Seq<ActionModel>) -> bool {
    &&& plan.len() == model.len()
    &&& forall|i: int| 0 <= i < plan.len() ==> #[trigger] plan[i].matches(model[i])
}

/// Whether a regular file with the given metadata satisfies the active
/// rule: in restore direction every file does, the day count notwithstanding;
/// in move direction the file's modification time must have been readable
/// and its age must satisfy the comparison.
pub open spec fn spec_file_matches(p: Policy, age_days: u64, mtime_ok: bool) -> bool {
    match p.mode {
        OperationMode::Restore => true,
        OperationMode::Move => mtime_ok && spec_age_matches(p.cmp, age_days),
    }
}

/// Whether an entry lets its enclosing directory qualify as a whole — and,
/// for a directory entry, whether the directory itself qualifies:
/// an excluded entry poisons the directory; a symbolic link, a special file
/// or an unreadable entry neither blocks nor contributes; a regular file
/// must satisfy the rule; a directory must be listable and every entry of it
/// must pass in turn.
pub open spec fn spec_entry_passes(p: Policy, e: FsEntry) -> bool
    decreases e.node, 1int,
{
    if spec_excluded(p.patterns, e.path@) {
        false
    } else {
        match e.node {
            FsNode::File { size, age_days, mtime_ok } => spec_file_matches(p, age_days, mtime_ok),
            FsNode::Dir { readable, entries } => readable && spec_entries_pass(p, entries@),
            _ => true,
        }
    }
}

pub open spec fn spec_entries_pass(p: Policy, s: Seq<FsEntry>) -> bool
    decreases s, 0int,
{
    s.len() == 0 || (spec_entries_pass(p, s.drop_last()) && spec_entry_passes(p, s.last()))
}

impl FileMover {
    /// What this engine's decisions depend on.
    pub closed spec fn policy(&self) -> Policy {
        Policy {
            mode: self.mode,
            cmp: self.time_comparison,
            patterns: spec_patterns_of(self.exclude_regex@),
        }
    }

    pub closed spec fn spec_source(&self) -> Seq<char> {
        self.source@
    }

    pub closed spec fn spec_temporary(&self) -> Seq<char> {
        self.temporary@
    }

    pub closed spec fn spec_dry_run(&self) -> bool {
        self.dry_run
    }

    pub closed spec fn spec_verbose(&self) -> bool {
        self.verbose
    }

    /// The statistics the last run left behind.
    pub closed spec fn spec_stats(&self) -> FileStats {
        self.stats
    }

    /// Whether a regular file with the given metadata is relocated, as
    /// [`spec_file_matches`] describes.
    pub fn is_file_matching(&self, age_days: u64, mtime_ok: bool) -> (r: bool)
        ensures
            r == spec_file_matches(self.policy(), age_days, mtime_ok),
    {
        match self.mode {
            OperationMode::Restore => true,
            OperationMode::Move => mtime_ok && age_matches(&self.time_comparison, age_days),
        }
    }

    /// Whether the entry — for a directory, the whole subtree — qualifies
    /// for relocation as one unit, as [`spec_entry_passes`] describes:
    /// the decision short-circuits at the first excluded or non-matching
    /// descendant.
    pub fn is_directory_matching(&self, e: &FsEntry) -> (r: bool)
        ensures
            r == spec_entry_passes(self.policy(), *e),
        decreases e.node,
    {
        if is_excluded(&self.exclude_regex, self.path_str(e)) {
            return false;
        }
        match &e.node {
            FsNode::File { size, age_days, mtime_ok } => {
                self.is_file_matching(*age_days, *mtime_ok)
            },
            FsNode::Dir { readable, entries } => {
                if !*readable {
                    return false;
                }
                let mut i: usize = 0;
                while i < entries.len()
                    invariant
                        i <= entries.len(),
                        e.node is Dir,
                        entries@ == e.node->Dir_entries@,
                        spec_entries_pass(self.policy(), entries@.take(i as int)),
                    decreases entries.len() - i,
                {
                    proof {
                        assert(decreases_to!(e.node => entries@[i as int].node)) by {
                            assert(decreases_to!(e.node => e.node->Dir_entries));
                            assert(decreases_to!(e.node->Dir_entries => entries@));
                            assert(decreases_to!(entries@ => entries@[i as int]));
                            assert(decreases_to!(entries@[i as int] => entries@[i as int].node));
                        };
                    }
                    let passes = self.is_directory_matching(&entries[i]);
                    proof {
                        let prefix = entries@.take(i as int);
                        let prefix1 = entries@.take(i + 1 as int);
                        assert(prefix1.drop_last() =~= prefix);
                        assert(prefix1.last() == entries@[i as int]);
                    }
                    if !passes {
                        proof {
                            lemma_entries_pass_prefix(self.policy(), entries@, i as int);
                        }
                        return false;
                    }
                    i = i + 1;
                }
                proof {
                    assert(entries@.take(entries@.len() as int) =~= entries@);
                }
                true
            },
            _ => true,
        }
    }

    /// The full path string of an entry, the form the exclusion filter
    /// tests.
    fn path_str<'a>(&self, e: &'a FsEntry) -> (r: &'a str)
        ensures
            r@ == e.path@,
    {
        e.path.as_str()
    }
}

/// A failing entry anywhere in the list settles the whole list.
pub proof fn lemma_entries_pass_prefix(p: Policy, s: Seq<FsEntry>, i: int)
    requires
        0 <= i < s.len(),
        !spec_entry_passes(p, s[i]),
    ensures
        !spec_entries_pass(p, s),
    decreases s.len(),
{
    if s.len() > 0 {
        if i == s.len() - 1 {
            assert(s.last() == s[i]);
        } else {
            assert(s.drop_last()[i] == s[i]);
            lemma_entries_pass_prefix(p, s.drop_last(), i);
        }
    }
}

/// The children a directory entry hands to the next traversal level: its
/// immediate entries, each with the relative path extended by its name.
pub open spec fn spec_child_items(s: Seq<FsEntry>, rel: Seq<char>) -> Seq<ItemModel> {
    Seq::new(s.len(), |i: int| ItemModel { entry: s[i], rel: rel + "/"@ + s[i].name@ })
}

/// The relocation a visit performs, if any: an excluded entry, a symbolic
/// link, a special file or an unreadable entry is left alone; a regular
/// file is relocated when it satisfies the rule; a directory is relocated
/// as one unit when its whole subtree qualifies.
pub open spec fn spec_item_action(p: Policy, it: ItemModel) -> Seq<ActionModel> {
    if spec_excluded(p.patterns, it.entry.path@) {
        Seq::empty()
    } else {
        match it.entry.node {
            FsNode::File { size, age_days, mtime_ok } => if spec_file_matches(
                p,
                age_days,
                mtime_ok,
            ) {
                seq![
                    ActionModel {
                        src: it.entry.path@,
                        rel: it.rel,
                        is_dir: false,
                        bytes: size as nat,
                    },
                ]
            } else {
                Seq::empty()
            },
            FsNode::Dir { .. } => if spec_entry_passes(p, it.entry) {
                seq![
                    ActionModel {
                        src: it.entry.path@,
                        rel: it.rel,
                        is_dir: true,
                        bytes: node_bytes(it.entry.node),
                    },
                ]
            } else {
                Seq::empty()
            },
            _ => Seq::empty(),
        }
    }
}

/// The work a visit leaves for the next level: only a listable,
/// non-excluded directory that does not qualify as a whole descends, and it
/// descends exactly one level, into its immediate entries.
pub open spec fn spec_item_children(p: Policy, it: ItemModel) -> Seq<ItemModel> {
    if spec_excluded(p.patterns, it.entry.path@) {
        Seq::empty()
    } else {
        match it.entry.node {
            FsNode::Dir { readable, entries } => if spec_entry_passes(p, it.entry) || !readable {
                Seq::empty()
            } else {
                spec_child_items(entries@, it.rel)
            },
            _ => Seq::empty(),
        }
    }
}

/// The relocations of one traversal level, in the level's order.
pub open spec fn spec_level_actions(p: Policy, items: Seq<ItemModel>) -> Seq<ActionModel>
    decreases items,
{
    if items.len() == 0 {
        Seq::empty()
    } else {
        spec_level_actions(p, items.drop_last()) + spec_item_action(p, items.last())
    }
}

/// The next level produced by one traversal level, in the level's order.
pub open spec fn spec_level_children(p: Policy, items: Seq<ItemModel>) -> Seq<ItemModel>
    decreases items,
{
    if items.len() == 0 {
        Seq::empty()
    } else {
        spec_level_children(p, items.drop_last()) + spec_item_children(p, items.last())
    }
}

/// The number of snapshot nodes still reachable from a batch of work items;
/// the measure that shrinks from each level to the next.
pub open spec fn spec_items_weight(items: Seq<ItemModel>) -> nat
    decreases items,
{
    if items.len() == 0 {
        0nat
    } else {
        spec_items_weight(items.drop_last()) + node_weight(items.last().entry.node)
    }
}

/// The whole plan of a run, seeded with a batch of work items: the current
/// level's relocations first, then — strictly after them — everything the
/// levels below produce. A directory's children are only ever considered
/// once the directory itself stood in a level and did not qualify.
pub open spec fn spec_plan(p: Policy, items: Seq<ItemModel>) -> Seq<ActionModel>
    decreases spec_items_weight(items),
    via spec_plan_decreases
{
    if items.len() == 0 {
        Seq::empty()
    } else {
        spec_level_actions(p, items) + spec_plan(p, spec_level_children(p, items))
    }
}

#[via_fn]
proof fn spec_plan_decreases(p: Policy, items: Seq<ItemModel>) {
    if items.len() != 0 {
        lemma_level_children_weight(p, items);
    }
}

proof fn lemma_items_weight_append(a: Seq<ItemModel>, b: Seq<ItemModel>)
    ensures
        spec_items_weight(a + b) == spec_items_weight(a) + spec_items_weight(b),
    decreases b.len(),
{
    if b.len() == 0 {
        assert(a + b =~= a);
    } else {
        lemma_items_weight_append(a, b.drop_last());
        assert((a + b).drop_last() =~= a + b.drop_last());
        assert((a + b).last() == b.last());
    }
}

proof fn lemma_node_weight_pos(n: FsNode)
    ensures
        node_weight(n) >= 1,
{
    match n {
        FsNode::Dir { entries, .. } => {
            assert(node_weight(n) == 1 + entries_weight(entries@));
        },
        _ => {},
    }
}

proof fn lemma_child_items_weight(s: Seq<FsEntry>, rel: Seq<char>)
    ensures
        spec_items_weight(spec_child_items(s, rel)) == entries_weight(s),
    decreases s.len(),
{
    let c = spec_child_items(s, rel);
    if s.len() == 0 {
        assert(c =~= Seq::<ItemModel>::empty());
    } else {
        lemma_child_items_weight(s.drop_last(), rel);
        assert(c.drop_last() =~= spec_child_items(s.drop_last(), rel));
        assert(c.last().entry == s.last());
    }
}

/// A visit hands the next level strictly fewer reachable nodes than the
/// visited entry itself stands for.
proof fn lemma_item_children_weight(p: Policy, it: ItemModel)
    ensures
        spec_items_weight(spec_item_children(p, it)) < node_weight(it.entry.node),
{
    lemma_node_weight_pos(it.entry.node);
    let ch = spec_item_children(p, it);
    if !spec_excluded(p.patterns, it.entry.path@) {
        match it.entry.node {
            FsNode::Dir { readable, entries } => {
                if !(spec_entry_passes(p, it.entry) || !readable) {
                    lemma_child_items_weight(entries@, it.rel);
                    assert(node_weight(it.entry.node) == 1 + entries_weight(entries@));
                } else {
                    assert(spec_items_weight(ch) == 0);
                }
            },
            _ => {
                assert(spec_items_weight(ch) == 0);
            },
        }
    } else {
        assert(spec_items_weight(ch) == 0);
    }
}

/// One level hands the next strictly fewer reachable nodes: at least one
/// per item of the level is used up.
proof fn lemma_level_children_weight(p: Policy, items: Seq<ItemModel>)
    ensures
        spec_items_weight(spec_level_children(p, items)) + items.len() <= spec_items_weight(items),
    decreases items.len(),
{
    if items.len() > 0 {
        lemma_level_children_weight(p, items.drop_last());
        lemma_items_weight_append(
            spec_level_children(p, items.drop_last()),
            spec_item_children(p, items.last()),
        );
        lemma_item_children_weight(p, items.last());
    }
}

/// The files, directories and bytes of a plan.
pub open spec fn spec_count_files(m: Seq<ActionModel>) -> nat
    decreases m,
{
    if m.len() == 0 {
        0nat
    } else {
        spec_count_files(m.drop_last()) + if m.last().is_dir {
            0nat
        } else {
            1nat
        }
    }
}

pub open spec fn spec_count_dirs(m: Seq<ActionModel>) -> nat
    decreases m,
{
    if m.len() == 0 {
        0nat
    } else {
        spec_count_dirs(m.drop_last()) + if m.last().is_dir {
            1nat
        } else {
            0nat
        }
    }
}

pub open spec fn spec_plan_bytes(m: Seq<ActionModel>) -> nat
    decreases m,
{
    if m.len() == 0 {
        0nat
    } else {
        spec_plan_bytes(m.drop_last()) + m.last().bytes
    }
}

/// One entry awaiting a visit: where it sits in the snapshot, and its path
/// relative to the traversal root.
pub struct WorkItem<'a> {
    pub entry: &'a FsEntry,
    pub rel: String,
}

impl<'a> WorkItem<'a> {
    pub open spec fn model(self) -> ItemModel {
        ItemModel { entry: *self.entry, rel: self.rel@ }
    }
}

pub open spec fn items_model<'a>(s: Seq<WorkItem<'a>>) -> Seq<ItemModel> {
    Seq::new(s.len(), |i: int| s[i].model())
}

/// The result of visiting one work item: relocate the entry as a unit,
/// descend into a directory's entries at the next level, or leave the entry
/// alone. Files never produce children.
pub enum MatchOutcome<'a> {
    Relocate(MoveAction),
    Descend(Vec<WorkItem<'a>>),
    Skip,
}

proof fn lemma_level_take_step(p: Policy, items: Seq<ItemModel>, i: int)
    requires
        0 <= i < items.len(),
    ensures
        spec_level_actions(p, items.take(i + 1)) == spec_level_actions(p, items.take(i))
            + spec_item_action(p, items[i]),
        spec_level_children(p, items.take(i + 1)) == spec_level_children(p, items.take(i))
            + spec_item_children(p, items[i]),
{
    let t = items.take(i + 1);
    assert(t.drop_last() =~= items.take(i));
    assert(t.last() == items[i]);
}

proof fn lemma_plan_matches_push(
    pl: Seq<MoveAction>,
    m: Seq<ActionModel>,
    a: MoveAction,
    am: ActionModel,
)
    requires
        plan_matches(pl, m),
        a.matches(am),
    ensures
        plan_matches(pl.push(a), m.push(am)),
{
    assert forall|k: int| 0 <= k < pl.push(a).len() implies #[trigger] pl.push(a)[k].matches(
        m.push(am)[k],
    ) by {
        if k < pl.len() {
            assert(pl.push(a)[k] == pl[k]);
            assert(m.push(am)[k] == m[k]);
        } else {
            assert(pl.push(a)[k] == a);
            assert(m.push(am)[k] == am);
        }
    }
}

impl FileMover {
    /// Visits one work item, in the prescribed order: exclusion first; a
    /// symbolic link, a special file or an unreadable entry is skipped; a
    /// qualifying directory or a matching file becomes one relocation; a
    /// non-qualifying listable directory hands its entries to the next
    /// level.
    pub fn process_node<'a>(&self, entry: &'a FsEntry, rel: &String) -> (r: MatchOutcome<'a>)
        ensures
            ({
                let im = ItemModel { entry: *entry, rel: rel@ };
                let acts = spec_item_action(self.policy(), im);
                let chs = spec_item_children(self.policy(), im);
                match r {
                    MatchOutcome::Relocate(a) => acts.len() == 1 && a.matches(acts[0])
                        && chs.len() == 0,
                    MatchOutcome::Descend(ch) => acts.len() == 0 && items_model(ch@) == chs,
                    MatchOutcome::Skip => acts.len() == 0 && chs.len() == 0,
                }
            }),
    {
        let ghost im = ItemModel { entry: *entry, rel: rel@ };
        if is_excluded(&self.exclude_regex, self.path_str(entry)) {
            return MatchOutcome::Skip;
        }
        match &entry.node {
            FsNode::Dir { readable, entries } => {
                if self.is_directory_matching(entry) {
                    let bytes = subtree_size(&entry.node);
                    MatchOutcome::Relocate(
                        MoveAction {
                            src: entry.path.clone(),
                            rel: rel.clone(),
                            is_dir: true,
                            bytes,
                        },
                    )
                } else if !*readable {
                    let children: Vec<WorkItem<'a>> = Vec::new();
                    proof {
                        assert(items_model(children@) =~= spec_item_children(self.policy(), im));
                    }
                    MatchOutcome::Descend(children)
                } else {
                    let mut children: Vec<WorkItem<'a>> = Vec::new();
                    let mut j: usize = 0;
                    while j < entries.len()
                        invariant
                            j <= entries.len(),
                            entry.node is Dir,
                            entries@ == entry.node->Dir_entries@,
                            children@.len() == j,
                            forall|k: int|
                                0 <= k < j ==> #[trigger] children@[k].model() == spec_child_items(
                                    entries@,
                                    rel@,
                                )[k],
                        decreases entries.len() - j,
                    {
                        let child_rel = rel.clone().concat("/").concat(entries[j].name.as_str());
                        children.push(WorkItem { entry: &entries[j], rel: child_rel });
                        j = j + 1;
                    }
                    proof {
                        assert(items_model(children@) =~= spec_child_items(entries@, rel@));
                        assert(items_model(children@) =~= spec_item_children(self.policy(), im));
                    }
                    MatchOutcome::Descend(children)
                }
            },
            FsNode::File { size, age_days, mtime_ok } => {
                if self.is_file_matching(*age_days, *mtime_ok) {
                    MatchOutcome::Relocate(
                        MoveAction {
                            src: entry.path.clone(),
                            rel: rel.clone(),
                            is_dir: false,
                            bytes: *size,
                        },
                    )
                } else {
                    MatchOutcome::Skip
                }
            },
            _ => MatchOutcome::Skip,
        }
    }

    /// Seeds the traversal: every entry of the root level, each with its
    /// own name as its relative path.
    fn initialize_queue<'a>(&self, tree: &'a Vec<FsEntry>) -> (q: Vec<WorkItem<'a>>)
        ensures
            items_model(q@) == spec_root_items(tree@),
    {
        let mut q: Vec<WorkItem<'a>> = Vec::new();
        let mut i: usize = 0;
        while i < tree.len()
            invariant
                i <= tree.len(),
                q@.len() == i,
                forall|k: int|
                    0 <= k < i ==> #[trigger] q@[k].model() == spec_root_items(tree@)[k],
            decreases tree.len() - i,
        {
            q.push(WorkItem { entry: &tree[i], rel: tree[i].name.clone() });
            i = i + 1;
        }
        proof {
            assert(items_model(q@) =~= spec_root_items(tree@));
        }
        q
    }

    /// Drives the breadth-first walk: all of one level is visited — its
    /// relocations collected in order, its descents gathered — before any
    /// entry of the next level is considered.
    fn bfs_and_process<'a>(&self, start: Vec<WorkItem<'a>>) -> (plan: Vec<MoveAction>)
        ensures
            plan_matches(plan@, spec_plan(self.policy(), items_model(start@))),
    {
        let ghost p = self.policy();
        let ghost init = items_model(start@);
        let mut plan: Vec<MoveAction> = Vec::new();
        let ghost mut acc: Seq<ActionModel> = Seq::empty();
        let mut queue = start;
        proof {
            assert(acc + spec_plan(p, items_model(queue@)) =~= spec_plan(p, init));
        }
        while queue.len() > 0
            invariant
                p == self.policy(),
                plan_matches(plan@, acc),
                acc + spec_plan(p, items_model(queue@)) == spec_plan(p, init),
            decreases spec_items_weight(items_model(queue@)),
        {
            let ghost lvl = items_model(queue@);
            let ghost acc0 = acc;
            let mut next: Vec<WorkItem<'a>> = Vec::new();
            let mut i: usize = 0;
            proof {
                assert(lvl.take(0) =~= Seq::<ItemModel>::empty());
                assert(acc0 + spec_level_actions(p, lvl.take(0)) =~= acc0);
                assert(items_model(next@) =~= spec_level_children(p, lvl.take(0)));
            }
            while i < queue.len()
                invariant
                    i <= queue.len(),
                    p == self.policy(),
                    lvl == items_model(queue@),
                    plan_matches(plan@, acc0 + spec_level_actions(p, lvl.take(i as int))),
                    items_model(next@) == spec_level_children(p, lvl.take(i as int)),
                decreases queue.len() - i,
            {
                let item_entry = queue[i].entry;
                let outcome = self.process_node(item_entry, &queue[i].rel);
                proof {
                    assert(lvl[i as int] == ItemModel {
                        entry: *item_entry,
                        rel: queue@[i as int].rel@,
                    });
                    lemma_level_take_step(p, lvl, i as int);
                }
                match outcome {
                    MatchOutcome::Relocate(a) => {
                        let ghost am = spec_item_action(p, lvl[i as int])[0];
                        let ghost before = acc0 + spec_level_actions(p, lvl.take(i as int));
                        proof {
                            lemma_plan_matches_push(plan@, before, a, am);
                            assert(before.push(am) =~= acc0 + spec_level_actions(
                                p,
                                lvl.take(i + 1),
                            ));
                            assert(spec_level_children(p, lvl.take(i + 1)) =~= spec_level_children(
                                p,
                                lvl.take(i as int),
                            ));
                        }
                        plan.push(a);
                    },
                    MatchOutcome::Descend(mut ch) => {
                        proof {
                            assert(items_model(next@ + ch@) =~= items_model(next@) + items_model(
                                ch@,
                            ));
                            assert(items_model(next@) + items_model(ch@) =~= spec_level_children(
                                p,
                                lvl.take(i + 1),
                            ));
                            assert(acc0 + spec_level_actions(p, lvl.take(i + 1)) =~= acc0
                                + spec_level_actions(p, lvl.take(i as int)));
                        }
                        next.append(&mut ch);
                    },
                    MatchOutcome::Skip => {
                        proof {
                            assert(acc0 + spec_level_actions(p, lvl.take(i + 1)) =~= acc0
                                + spec_level_actions(p, lvl.take(i as int)));
                            assert(spec_level_children(p, lvl.take(i + 1)) =~= spec_level_children(
                                p,
                                lvl.take(i as int),
                            ));
                        }
                    },
                }
                i = i + 1;
            }
            proof {
                assert(lvl.take(lvl.len() as int) =~= lvl);
                assert(spec_plan(p, lvl) == spec_level_actions(p, lvl) + spec_plan(
                    p,
                    spec_level_children(p, lvl),
                ));
                lemma_level_children_weight(p, lvl);
                acc = acc0 + spec_level_actions(p, lvl);
                assert(acc + spec_plan(p, spec_level_children(p, lvl)) =~= acc0 + (
                spec_level_actions(p, lvl) + spec_plan(p, spec_level_children(p, lvl))));
            }
            queue = next;
        }
        proof {
            assert(items_model(queue@).len() == 0);
            assert(items_model(queue@) =~= Seq::<ItemModel>::empty());
            assert(acc + spec_plan(p, items_model(queue@)) =~= acc);
        }
        plan
    }
}

/// The work the traversal is seeded with: the root level of the snapshot,
/// each entry under its own name.
pub open spec fn spec_root_items(s: Seq<FsEntry>) -> Seq<ItemModel> {
    Seq::new(s.len(), |i: int| ItemModel { entry: s[i], rel: s[i].name@ })
}

/// The exclusion pattern texts of a configuration; an absent list excludes
/// nothing.
pub open spec fn spec_exclude_views(e: Option<Vec<String>>) -> Seq<Seq<char>> {
    match e {
        Some(v) => v.deep_view(),
        None => Seq::empty(),
    }
}

/// Whether every configured exclusion pattern is one the regex engine
/// accepts.
pub open spec fn spec_all_patterns_ok(e: Option<Vec<String>>) -> bool {
    match e {
        Some(v) => forall|i: int| 0 <= i < v@.len() ==> spec_pattern_ok(#[trigger] v@[i]@),
        None => true,
    }
}

/// The rejection message for identical source and temporary roots.
pub open spec fn spec_same_roots_msg() -> Seq<char> {
    "Source and temporary directories must be different"@
}

/// The policy a configuration resolves to, when it is accepted: nothing of
/// the dry-run flag, the verbose flag or the roots enters it.
pub open spec fn spec_policy_of(cli: Cli) -> Policy {
    Policy {
        mode: cli.mode,
        cmp: spec_parse_days(cli.days@)->Some_0,
        patterns: spec_exclude_views(cli.exclude),
    }
}

/// The one-line report of a run: counts and a human-readable byte total.
pub open spec fn spec_summary_line(stats: FileStats) -> Seq<char> {
    "Processed "@ + spec_u64_digits(stats.files_moved as int) + " files and "@ + spec_u64_digits(
        stats.dirs_moved as int,
    ) + " directories. Total size: "@ + spec_human_readable(stats.total_size)
}

proof fn lemma_stats_take_step(m: Seq<ActionModel>, i: int)
    requires
        0 <= i < m.len(),
    ensures
        spec_count_files(m.take(i + 1)) == spec_count_files(m.take(i)) + (if m[i].is_dir {
            0nat
        } else {
            1nat
        }),
        spec_count_dirs(m.take(i + 1)) == spec_count_dirs(m.take(i)) + (if m[i].is_dir {
            1nat
        } else {
            0nat
        }),
        spec_plan_bytes(m.take(i + 1)) == spec_plan_bytes(m.take(i)) + m[i].bytes,
{
    let t = m.take(i + 1);
    assert(t.drop_last() =~= m.take(i));
    assert(t.last() == m[i]);
}

impl FileMover {
    /// Tallies a plan into the three counters: one per relocated file, one
    /// per relocated directory, and every credited byte, each total stopping
    /// at `u64::MAX` rather than wrapping.
    fn update_stats(plan: &Vec<MoveAction>, Ghost(model): Ghost<Seq<ActionModel>>) -> (s:
        FileStats)
        requires
            plan_matches(plan@, model),
        ensures
            s.files_moved == sat64(spec_count_files(model) as int),
            s.dirs_moved == sat64(spec_count_dirs(model) as int),
            s.total_size == sat64(spec_plan_bytes(model) as int),
    {
        let mut s = FileStats { files_moved: 0, dirs_moved: 0, total_size: 0 };
        let mut i: usize = 0;
        proof {
            assert(model.take(0) =~= Seq::<ActionModel>::empty());
        }
        while i < plan.len()
            invariant
                i <= plan.len(),
                plan_matches(plan@, model),
                s.files_moved == sat64(spec_count_files(model.take(i as int)) as int),
                s.dirs_moved == sat64(spec_count_dirs(model.take(i as int)) as int),
                s.total_size == sat64(spec_plan_bytes(model.take(i as int)) as int),
            decreases plan.len() - i,
        {
            proof {
                lemma_stats_take_step(model, i as int);
                assert(plan@[i as int].matches(model[i as int]));
            }
            if plan[i].is_dir {
                s.dirs_moved = sat64_add(s.dirs_moved, 1);
            } else {
                s.files_moved = sat64_add(s.files_moved, 1);
            }
            s.total_size = sat64_add(s.total_size, plan[i].bytes);
            i = i + 1;
        }
        proof {
            assert(model.take(model.len() as int) =~= model);
        }
        s
    }

    /// Runs the whole traversal over the given snapshot of the tree being
    /// drained, and leaves the run's statistics behind: the returned plan
    /// realises exactly the planned relocations, breadth-first level by
    /// level, and nothing of the engine but the statistics changes.
    pub fn execute(&mut self, tree: &Vec<FsEntry>) -> (plan: Vec<MoveAction>)
        ensures
            ({
                let model = spec_plan(old(self).policy(), spec_root_items(tree@));
                &&& plan_matches(plan@, model)
                &&& final(self).policy() == old(self).policy()
                &&& final(self).spec_source() == old(self).spec_source()
                &&& final(self).spec_temporary() == old(self).spec_temporary()
                &&& final(self).spec_dry_run() == old(self).spec_dry_run()
                &&& final(self).spec_verbose() == old(self).spec_verbose()
                &&& final(self).spec_stats().files_moved == sat64(spec_count_files(model) as int)
                &&& final(self).spec_stats().dirs_moved == sat64(spec_count_dirs(model) as int)
                &&& final(self).spec_stats().total_size == sat64(spec_plan_bytes(model) as int)
            }),
    {
        let start = self.initialize_queue(tree);
        let plan = self.bfs_and_process(start);
        let ghost model = spec_plan(self.policy(), spec_root_items(tree@));
        let stats = Self::update_stats(&plan, Ghost(model));
        self.stats = stats;
        plan
    }

    /// Builds an engine from the configuration, or explains what is wrong
    /// with it: an unparsable day-count string, then an exclusion pattern
    /// the regex engine refuses, then identical roots — checked in that
    /// order, each with its own message.
    pub fn new(cli: &Cli) -> (r: Result<FileMover, String>)
        ensures
            r is Ok <==> (spec_parse_days(cli.days@) is Some && spec_all_patterns_ok(cli.exclude)
                && cli.source@ != cli.temporary@),
            match r {
                Ok(m) => {
                    &&& m.policy() == spec_policy_of(*cli)
                    &&& m.spec_source() == cli.source@
                    &&& m.spec_temporary() == cli.temporary@
                    &&& m.spec_dry_run() == cli.dry_run
                    &&& m.spec_verbose() == cli.verbose
                    &&& m.spec_stats() == (FileStats { files_moved: 0, dirs_moved: 0, total_size: 0 })
                },
                Err(msg) => {
                    if spec_parse_days(cli.days@) is None {
                        msg@ == spec_invalid_days_msg(cli.days@)
                    } else if !spec_all_patterns_ok(cli.exclude) {
                        exists|i: int, detail: Seq<char>|
                            {
                                &&& 0 <= i < cli.exclude->Some_0@.len()
                                &&& !spec_pattern_ok(cli.exclude->Some_0@[i]@)
                                &&& (forall|k: int|
                                    0 <= k < i ==> spec_pattern_ok(
                                        #[trigger] cli.exclude->Some_0@[k]@,
                                    ))
                                &&& msg@ == #[trigger] spec_invalid_pattern_msg(
                                    cli.exclude->Some_0@[i]@,
                                    detail,
                                )
                            }
                    } else {
                        cli.source@ == cli.temporary@ && msg@ == spec_same_roots_msg()
                    }
                },
            },
    {
        let time_comparison = match parse_time_comparison(cli.days.as_str()) {
            Ok(c) => c,
            Err(msg) => {
                return Err(msg);
            },
        };
        let exclude_regex = match compile_patterns(&cli.exclude) {
            Ok(v) => v,
            Err(msg) => {
                proof {
                    let (i, detail): (int, Seq<char>) = choose|i: int, detail: Seq<char>|
                        {
                            &&& 0 <= i < cli.exclude->Some_0@.len()
                            &&& !spec_pattern_ok(cli.exclude->Some_0@[i]@)
                            &&& (forall|k: int|
                                0 <= k < i ==> spec_pattern_ok(#[trigger] cli.exclude->Some_0@[k]@))
                            &&& msg@ == #[trigger] spec_invalid_pattern_msg(
                                cli.exclude->Some_0@[i]@,
                                detail,
                            )
                        };
                    assert(!spec_all_patterns_ok(cli.exclude));
                }
                return Err(msg);
            },
        };
        proof {
            if cli.exclude is Some {
                let ps = cli.exclude->Some_0;
                assert forall|i: int| 0 <= i < ps@.len() implies spec_pattern_ok(
                    #[trigger] ps@[i]@,
                ) by {
                    assert(exclude_regex@[i].spec_pattern() == ps@[i]@);
                }
            }
            assert(spec_all_patterns_ok(cli.exclude));
        }
        if cli.source == cli.temporary {
            return Err(String::from_str("Source and temporary directories must be different"));
        }
        let m = FileMover {
            source: cli.source.clone(),
            temporary: cli.temporary.clone(),
            time_comparison,
            dry_run: cli.dry_run,
            verbose: cli.verbose,
            mode: cli.mode,
            exclude_regex,
            stats: FileStats { files_moved: 0, dirs_moved: 0, total_size: 0 },
        };
        proof {
            if cli.exclude is Some {
                let ps = cli.exclude->Some_0;
                assert forall|i: int|
                    0 <= i < spec_patterns_of(m.exclude_regex@).len() implies #[trigger] spec_patterns_of(
                    m.exclude_regex@,
                )[i] == spec_exclude_views(cli.exclude)[i] by {
                    assert(m.exclude_regex@[i].spec_pattern() == ps@[i]@);
                    assert(spec_exclude_views(cli.exclude)[i] == ps@[i].deep_view());
                }
                assert(spec_patterns_of(m.exclude_regex@) =~= spec_exclude_views(cli.exclude));
            } else {
                assert(spec_patterns_of(m.exclude_regex@) =~= spec_exclude_views(cli.exclude));
            }
        }
        Ok(m)
    }

    /// The root a run drains: the source tree when moving, the temporary
    /// tree when restoring.
    pub fn from_root(&self) -> (r: &String)
        ensures
            r@ == if self.policy().mode is Move {
                self.spec_source()
            } else {
                self.spec_temporary()
            },
    {
        match self.mode {
            OperationMode::Move => &self.source,
            OperationMode::Restore => &self.temporary,
        }
    }

    /// The root a run fills: the counterpart of [`FileMover::from_root`].
    pub fn to_root(&self) -> (r: &String)
        ensures
            r@ == if self.policy().mode is Move {
                self.spec_temporary()
            } else {
                self.spec_source()
            },
    {
        match self.mode {
            OperationMode::Move => &self.temporary,
            OperationMode::Restore => &self.source,
        }
    }

    /// Whether this run only previews: a dry run plans and counts exactly
    /// what a live run would, and the caller mutates nothing.
    pub fn dry_run(&self) -> (r: bool)
        ensures
            r == self.spec_dry_run(),
    {
        self.dry_run
    }

    pub fn verbose(&self) -> (r: bool)
        ensures
            r == self.spec_verbose(),
    {
        self.verbose
    }

    /// The report printed when a run completes, combining the three
    /// counters with the formatted byte total.
    pub fn summary_line(&self) -> (s: String)
        ensures
            s@ == spec_summary_line(self.spec_stats()),
    {
        String::from_str("Processed ").concat(u64_to_string(self.stats.files_moved).as_str())
            .concat(" files and ").concat(u64_to_string(self.stats.dirs_moved).as_str()).concat(
            " directories. Total size: ",
        ).concat(human_readable_size(self.stats.total_size).as_str())
    }
}

} // verus!
