//! The snapshot a traversal works on: a tree of named entries, each a
//! regular file, a directory, a symbolic link, a special file, or an entry
//! whose metadata could not be read. The snapshot is plain data; how it was
//! read off a live filesystem is the caller's business.

use vstd::prelude::*;

verus! {

/// One node of the snapshot.
///
/// - a `File` carries its byte length, its age in whole days, and whether
///   its modification time could be read at all;
/// - a `Dir` carries its immediate entries, and whether listing the
///   directory succeeded (a listing that failed has no entries);
/// - a `Symlink` is never followed, so it carries nothing;
/// - `Special` is any other file type (device, socket, FIFO);
/// - `Unknown` is an entry whose metadata could not be read.
#[derive(Debug, PartialEq, Eq)]
pub enum FsNode {
    File { size: u64, age_days: u64, mtime_ok: bool },
    Dir { readable: bool, entries: Vec<FsEntry> },
    Symlink,
    Special,
    Unknown,
}

/// A named entry of the snapshot. `path` is the entry's full path string,
/// the form the exclusion filter tests; `name` is its final component, the
/// piece that extends a relative destination path.
#[derive(Debug, PartialEq, Eq)]
pub struct FsEntry {
    pub name: String,
    pub path: String,
    pub node: FsNode,
}

/// The number of nodes in a subtree, counting the node itself; at least one.
pub open spec fn node_weight(n: FsNode) -> nat
    decreases n,
{
    match n {
        FsNode::Dir { entries, .. } => 1 + entries_weight(entries@),
        _ => 1nat,
    }
}

pub open spec fn entries_weight(s: Seq<FsEntry>) -> nat
    decreases s,
{
    if s.len() == 0 {
        0nat
    } else {
        entries_weight(s.drop_last()) + node_weight(s.last().node)
    }
}

/// The byte total credited for relocating a subtree: the sum of the lengths
/// of the regular files in it. Symbolic links, special files and unreadable
/// entries contribute nothing, and a directory contributes only through its
/// entries.
pub open spec fn node_bytes(n: FsNode) -> nat
    decreases n,
{
    match n {
        FsNode::File { size, .. } => size as nat,
        FsNode::Dir { entries, .. } => entries_bytes(entries@),
        _ => 0nat,
    }
}

pub open spec fn entries_bytes(s: Seq<FsEntry>) -> nat
    decreases s,
{
    if s.len() == 0 {
        0nat
    } else {
        entries_bytes(s.drop_last()) + node_bytes(s.last().node)
    }
}

/// A mathematical total clamped into a `u64`.
pub open spec fn sat64(x: int) -> u64 {
    if x > u64::MAX {
        u64::MAX
    } else if x < 0 {
        0u64
    } else {
        x as u64
    }
}

/// Addition that stops at `u64::MAX` instead of wrapping.
pub fn sat64_add(a: u64, b: u64) -> (r: u64)
    ensures
        r == sat64(a + b),
{
    if a > u64::MAX - b {
        u64::MAX
    } else {
        a + b
    }
}

/// The byte total of a subtree, clamped into a `u64`: what one relocated
/// directory is credited with in the statistics.
pub fn subtree_size(node: &FsNode) -> (r: u64)
    ensures
        r == sat64(node_bytes(*node) as int),
    decreases *node,
{
    match node {
        FsNode::File { size, .. } => *size,
        FsNode::Dir { entries, .. } => {
            let mut total: u64 = 0;
            let mut i: usize = 0;
            while i < entries.len()
                invariant
                    i <= entries.len(),
                    *node is Dir,
                    entries@ == (*node)->Dir_entries@,
                    total == sat64(entries_bytes(entries@.take(i as int)) as int),
                decreases entries.len() - i,
            {
                proof {
                    assert(decreases_to!(*node => entries@[i as int].node)) by {
                        assert(decreases_to!(*node => (*node)->Dir_entries));
                        assert(decreases_to!((*node)->Dir_entries => entries@));
                        assert(decreases_to!(entries@ => entries@[i as int]));
                        assert(decreases_to!(entries@[i as int] => entries@[i as int].node));
                    };
                }
                let s = subtree_size(&entries[i].node);
                proof {
                    let prefix = entries@.take(i as int);
                    let prefix1 = entries@.take(i + 1 as int);
                    assert(prefix1.drop_last() =~= prefix);
                    assert(prefix1.last() == entries@[i as int]);
                }
                total = sat64_add(total, s);
                i = i + 1;
            }
            proof {
                assert(entries@.take(entries@.len() as int) =~= entries@);
            }
            total
        },
        _ => 0,
    }
}

} // verus!
