//! Discovery of regular files under a set of root paths.
//!
//! The walk is modelled on a snapshot of the filesystem: each node is either
//! a regular file, a readable directory with its entries in listing order, or
//! some other node (symlink, special file, unreadable or missing path) that
//! the walk skips. The functions here emit the discovered file paths into a
//! sink vector; the surrounding binary performs the real directory listing
//! and hands each discovered path to a signing worker.
use vstd::prelude::*;

verus! {

broadcast use vstd::seq::group_seq_axioms, vstd::std_specs::vec::group_vec_axioms;

/// One filesystem node as the walk observes it.
pub enum FsNode {
    /// A regular file with its resolved path.
    File { path: String },
    /// A readable directory with its entries in the order the listing
    /// yielded them.
    Dir { entries: Vec<FsNode> },
    /// Anything else: a symlink, a special file, an unreadable directory or
    /// a path that does not exist. The walk emits nothing for such a node.
    Other,
}

/// The file paths that the recursive expansion rule discovers under one
/// node: a file is emitted, a directory is expanded entry by entry, and any
/// other node contributes nothing.
pub open spec fn files_of(node: FsNode) -> Seq<String>
    decreases node,
{
    match node {
        FsNode::File { path } => seq![path],
        FsNode::Dir { entries } => files_in_list(entries@),
        FsNode::Other => Seq::empty(),
    }
}

/// The concatenation, in order, of the files discovered under each node of a
/// list.
pub open spec fn files_in_list(nodes: Seq<FsNode>) -> Seq<String>
    decreases nodes,
{
    if nodes.len() == 0 {
        Seq::empty()
    } else {
        files_of(nodes[0]) + files_in_list(nodes.drop_first())
    }
}

/// The files that expanding one node as a directory discovers: the files
/// under its entries if it is a readable directory, nothing otherwise (a
/// node that cannot be listed is skipped whole).
pub open spec fn dir_files(node: FsNode) -> Seq<String> {
    match node {
        FsNode::Dir { entries } => files_in_list(entries@),
        _ => Seq::empty(),
    }
}

/// Extending a node list on the right appends that node's files to the
/// discovered sequence.
proof fn lemma_files_in_list_push(nodes: Seq<FsNode>, node: FsNode)
    ensures
        files_in_list(nodes.push(node)) == files_in_list(nodes) + files_of(node),
    decreases nodes,
{
    if nodes.len() == 0 {
        assert(nodes.push(node).drop_first() =~= Seq::<FsNode>::empty());
        assert(nodes.push(node)[0] == node);
        assert(files_in_list(Seq::<FsNode>::empty()) == Seq::<String>::empty());
        assert(files_in_list(nodes.push(node)) == files_of(node) + Seq::<String>::empty());
        assert(files_in_list(nodes.push(node)) =~= files_in_list(nodes) + files_of(node));
    } else {
        assert(nodes.push(node).drop_first() =~= nodes.drop_first().push(node));
        lemma_files_in_list_push(nodes.drop_first(), node);
        assert(files_in_list(nodes.push(node)) =~= files_in_list(nodes) + files_of(node));
    }
}

/// Emit one discovered file path into the sink.
pub fn push_file(sink: &mut Vec<String>, file: &String)
    ensures
        final(sink)@ == old(sink)@.push(*file),
{
    sink.push(file.clone());
}

/// Expand one node as a directory: emit every regular file among its
/// entries, recurse into every subdirectory, and skip every other entry. On
/// a node that is not a readable directory nothing is emitted, as when a
/// directory listing fails.
#[verifier::loop_isolation(false)]
pub fn push_dir(sink: &mut Vec<String>, dir: &FsNode)
    ensures
        final(sink)@ == old(sink)@ + dir_files(*dir),
    decreases *dir,
{
    match dir {
        FsNode::Dir { entries } => {
            let ghost entries_seq = entries@;
            let n = entries.len();
            let mut i: usize = 0;
            assert(sink@ =~= old(sink)@ + files_in_list(entries_seq.take(0)));
            while i < n
                invariant
                    n == entries_seq.len(),
                    i <= n,
                    entries@ == entries_seq,
                    sink@ == old(sink)@ + files_in_list(entries_seq.take(i as int)),
                decreases n - i,
            {
                proof {
                    assert(entries_seq.take(i + 1) =~= entries_seq.take(i as int).push(
                        entries_seq[i as int],
                    ));
                    lemma_files_in_list_push(entries_seq.take(i as int), entries_seq[i as int]);
                }
                let entry = &entries[i];
                match entry {
                    FsNode::File { path } => {
                        push_file(sink, path);
                    },
                    FsNode::Dir { entries: _ } => {
                        push_dir(sink, entry);
                    },
                    FsNode::Other => {},
                }
                assert(sink@ =~= old(sink)@ + files_in_list(entries_seq.take(i + 1)));
                i = i + 1;
            }
            proof {
                assert(entries_seq.take(n as int) =~= entries_seq);
            }
        },
        FsNode::File { path: _ } => {
            assert(sink@ =~= old(sink)@ + dir_files(*dir));
        },
        FsNode::Other => {
            assert(sink@ =~= old(sink)@ + dir_files(*dir));
        },
    }
}

/// Walk each root in order: a regular file is emitted directly, a directory
/// is expanded recursively, and a root that is neither (it does not exist,
/// or is a symlink or special file) is skipped without aborting the run.
pub fn searcher(sink: &mut Vec<String>, directories: &Vec<FsNode>)
    ensures
        final(sink)@ == old(sink)@ + files_in_list(directories@),
{
    let ghost roots = directories@;
    let n = directories.len();
    let mut i: usize = 0;
    assert(sink@ =~= old(sink)@ + files_in_list(roots.take(0)));
    while i < n
        invariant
            n == roots.len(),
            i <= n,
            directories@ == roots,
            sink@ == old(sink)@ + files_in_list(roots.take(i as int)),
        decreases n - i,
    {
        proof {
            assert(roots.take(i + 1) =~= roots.take(i as int).push(roots[i as int]));
            lemma_files_in_list_push(roots.take(i as int), roots[i as int]);
        }
        let root = &directories[i];
        match root {
            FsNode::Dir { entries: _ } => {
                push_dir(sink, root);
            },
            FsNode::File { path } => {
                push_file(sink, path);
            },
            FsNode::Other => {},
        }
        assert(sink@ =~= old(sink)@ + files_in_list(roots.take(i + 1)));
        i = i + 1;
    }
    proof {
        assert(roots.take(n as int) =~= roots);
    }
}

/// Law: discovery is a function of the tree alone. Two walks over the same
/// unchanged snapshot discover the same multiset of file paths, whatever
/// order either walk emitted them in.
pub proof fn lemma_discovery_idempotent(
    roots: Seq<FsNode>,
    first: Seq<String>,
    second: Seq<String>,
)
    requires
        first == files_in_list(roots),
        second == files_in_list(roots),
    ensures
        first.to_multiset() == second.to_multiset(),
{
}

} // verus!
