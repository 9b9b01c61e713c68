//! The tree of processes below the host process.

use vstd::prelude::*;

verus! {

/// One process of a snapshot, with the process that started it.
#[derive(Clone, Copy, Debug, PartialEq, Eq)]
pub struct ProcessNode {
    pub pid: u32,
    pub parent_pid: u32,
}

/// Whether the snapshot lists `child` under `parent`.
pub open spec fn is_child(nodes: Seq<ProcessNode>, parent: u32, child: u32) -> bool {
    nodes.contains(ProcessNode { pid: child, parent_pid: parent })
}

/// Whether each process on the path, after the first, is listed under the one
/// before it.
pub open spec fn is_lineage(nodes: Seq<ProcessNode>, path: Seq<u32>) -> bool {
    &&& path.len() >= 2
    &&& forall|i: int|
        0 <= i < path.len() - 1 ==> is_child(nodes, #[trigger] path[i], path[i + 1])
}

/// Whether some lineage leads from `root` down to `pid`.
pub open spec fn descends(nodes: Seq<ProcessNode>, root: u32, pid: u32) -> bool {
    exists|path: Seq<u32>| #[trigger]
        is_lineage(nodes, path) && path.first() == root && path.last() == pid
}

/// Whether the process at position `k` is listed under `root` or under a process
/// at an earlier position.
pub open spec fn has_earlier_parent(
    nodes: Seq<ProcessNode>,
    root: u32,
    pids: Seq<u32>,
    k: int,
) -> bool {
    ||| is_child(nodes, root, pids[k])
    ||| exists|j: int| 0 <= j < k && is_child(nodes, #[trigger] pids[j], pids[k])
}

/// Whether every process stands behind the one that it is listed under.
pub open spec fn parents_first(nodes: Seq<ProcessNode>, root: u32, pids: Seq<u32>) -> bool {
    forall|k: int| 0 <= k < pids.len() ==> #[trigger] has_earlier_parent(nodes, root, pids, k)
}

/// `found`, followed by the processes listed under `parent` that are neither in
/// it nor the root, in the order of the snapshot.
pub open spec fn with_children(
    nodes: Seq<ProcessNode>,
    root: u32,
    parent: u32,
    found: Seq<u32>,
) -> Seq<u32>
    decreases nodes.len(),
{
    if nodes.len() == 0 {
        found
    } else {
        let before = with_children(nodes.drop_last(), root, parent, found);
        let node = nodes.last();
        if node.parent_pid == parent && node.pid != root && !before.contains(node.pid) {
            before.push(node.pid)
        } else {
            before
        }
    }
}

/// How many processes of the snapshot are not in `found`.
pub open spec fn unfound(nodes: Seq<ProcessNode>, found: Seq<u32>) -> nat {
    nodes.map_values(|node: ProcessNode| node.pid).to_set().difference(found.to_set()).len()
}

/// The order in which the processes below `root` are found. The processes whose
/// children have not been looked up are in `pending`: the last one of them is
/// taken up next, and its children are put behind the others.
pub open spec fn search_order(
    nodes: Seq<ProcessNode>,
    root: u32,
    pending: Seq<u32>,
    found: Seq<u32>,
) -> Seq<u32>
    decreases unfound(nodes, found), pending.len(),
    via search_order_ends
{
    if pending.len() == 0 {
        found
    } else {
        let grown = with_children(nodes, root, pending.last(), found);
        search_order(nodes, root, pending.drop_last() + grown.skip(found.len() as int), grown)
    }
}

#[via_fn]
proof fn search_order_ends(
    nodes: Seq<ProcessNode>,
    root: u32,
    pending: Seq<u32>,
    found: Seq<u32>,
) {
    if pending.len() != 0 {
        lemma_unfound(nodes, root, pending.last(), found);
    }
}

/// Looking up the children of a process keeps what was found and adds exactly
/// the children that were missing.
proof fn lemma_with_children(nodes: Seq<ProcessNode>, root: u32, parent: u32, found: Seq<u32>)
    ensures
        found.len() <= with_children(nodes, root, parent, found).len(),
        with_children(nodes, root, parent, found).take(found.len() as int) == found,
        found.no_duplicates() ==> with_children(nodes, root, parent, found).no_duplicates(),
        forall|pid: u32| #[trigger]
            with_children(nodes, root, parent, found).contains(pid) <==> found.contains(pid) || (pid
                != root && is_child(nodes, parent, pid)),
        forall|i: int|
            found.len() <= i < with_children(nodes, root, parent, found).len() ==> {
                let pid = #[trigger] with_children(nodes, root, parent, found)[i];
                !found.contains(pid) && pid != root && is_child(nodes, parent, pid)
            },
    decreases nodes.len(),
{
    let grown = with_children(nodes, root, parent, found);
    if nodes.len() == 0 {
        assert(grown.take(found.len() as int) =~= found);
    } else {
        let shorter = nodes.drop_last();
        let node = nodes.last();
        lemma_with_children(shorter, root, parent, found);
        let before = with_children(shorter, root, parent, found);
        assert forall|pid: u32| #[trigger]
            is_child(nodes, parent, pid) <==> is_child(shorter, parent, pid) || node
            == (ProcessNode { pid, parent_pid: parent }) by {
            let wanted = ProcessNode { pid, parent_pid: parent };
            assert(nodes =~= shorter.push(node));
            if is_child(nodes, parent, pid) {
                let i = choose|i: int| 0 <= i < nodes.len() && nodes[i] == wanted;
                if i < shorter.len() {
                    assert(shorter[i] == wanted);
                }
            }
            if is_child(shorter, parent, pid) {
                let i = choose|i: int| 0 <= i < shorter.len() && shorter[i] == wanted;
                assert(nodes[i] == wanted);
            }
            if node == wanted {
                assert(nodes[nodes.len() - 1] == wanted);
            }
        }
        if grown.len() != before.len() {
            assert(grown == before.push(node.pid));
            assert(grown.take(found.len() as int) =~= before.take(found.len() as int));
            assert forall|pid: u32| #[trigger] grown.contains(pid) <==> before.contains(pid) || pid
                == node.pid by {
                if before.contains(pid) {
                    let i = choose|i: int| 0 <= i < before.len() && before[i] == pid;
                    assert(grown[i] == pid);
                }
                if pid == node.pid {
                    assert(grown[before.len() as int] == pid);
                }
            }
        }
        assert forall|pid: u32| #[trigger] grown.contains(pid) <==> found.contains(pid) || (pid
            != root && is_child(nodes, parent, pid)) by {
            assert(is_child(nodes, parent, pid) <==> is_child(shorter, parent, pid) || node
                == (ProcessNode { pid, parent_pid: parent }));
        }
    }
}

/// Looking up children leaves fewer processes to find, where it found any.
proof fn lemma_unfound(nodes: Seq<ProcessNode>, root: u32, parent: u32, found: Seq<u32>)
    ensures
        with_children(nodes, root, parent, found) == found || unfound(
            nodes,
            with_children(nodes, root, parent, found),
        ) < unfound(nodes, found),
{
    let grown = with_children(nodes, root, parent, found);
    lemma_with_children(nodes, root, parent, found);
    if grown.len() == found.len() {
        assert(grown =~= grown.take(found.len() as int));
    } else {
        let pids = nodes.map_values(|node: ProcessNode| node.pid);
        let fresh = grown[found.len() as int];
        let node = ProcessNode { pid: fresh, parent_pid: parent };
        let k = choose|k: int| 0 <= k < nodes.len() && nodes[k] == node;
        assert(pids[k] == fresh);
        assert(pids.contains(fresh));
        vstd::seq_lib::seq_to_set_is_finite(pids);
        let before = pids.to_set().difference(found.to_set());
        let after = pids.to_set().difference(grown.to_set());
        assert(before.contains(fresh));
        assert forall|pid: u32| after.contains(pid) implies #[trigger] before.remove(fresh).contains(
            pid,
        ) by {
            assert(!grown.contains(pid));
        }
        vstd::set_lib::lemma_len_subset(after, before.remove(fresh));
    }
}

/// Whether the children of every process that is found, and no longer pending,
/// are found.
spec fn explored(
    nodes: Seq<ProcessNode>,
    root: u32,
    pending: Seq<u32>,
    found: Seq<u32>,
) -> bool {
    forall|parent: u32, child: u32| #[trigger]
        is_child(nodes, parent, child) && (parent == root || found.contains(parent))
            && !pending.contains(parent) ==> child == root || found.contains(child)
}

/// What holds between two rounds of the search.
spec fn searching(nodes: Seq<ProcessNode>, root: u32, pending: Seq<u32>, found: Seq<u32>) -> bool {
    &&& found.no_duplicates()
    &&& !found.contains(root)
    &&& parents_first(nodes, root, found)
    &&& forall|pid: u32| #[trigger] pending.contains(pid) ==> pid == root || found.contains(pid)
    &&& explored(nodes, root, pending, found)
}

/// One round of the search keeps what holds between rounds.
proof fn lemma_search_round(
    nodes: Seq<ProcessNode>,
    root: u32,
    pending: Seq<u32>,
    found: Seq<u32>,
)
    requires
        pending.len() > 0,
        searching(nodes, root, pending, found),
    ensures
        ({
            let grown = with_children(nodes, root, pending.last(), found);
            searching(
                nodes,
                root,
                pending.drop_last() + grown.skip(found.len() as int),
                grown,
            )
        }),
{
    let parent = pending.last();
    let grown = with_children(nodes, root, parent, found);
    let fresh = grown.skip(found.len() as int);
    let next = pending.drop_last() + fresh;
    lemma_with_children(nodes, root, parent, found);
    assert(pending.contains(parent));
    assert forall|i: int| 0 <= i < found.len() implies grown[i] == found[i] by {
        assert(grown.take(found.len() as int)[i] == grown[i]);
    }
    assert forall|k: int| 0 <= k < grown.len() implies #[trigger] has_earlier_parent(
        nodes,
        root,
        grown,
        k,
    ) by {
        if k < found.len() {
            assert(has_earlier_parent(nodes, root, found, k));
            if !is_child(nodes, root, found[k]) {
                let j = choose|j: int| 0 <= j < k && is_child(nodes, #[trigger] found[j], found[k]);
                assert(is_child(nodes, grown[j], grown[k]));
            }
        } else {
            assert(is_child(nodes, parent, grown[k]));
            if parent != root {
                let j = choose|j: int| 0 <= j < found.len() && found[j] == parent;
                assert(is_child(nodes, grown[j], grown[k]));
            }
        }
    }
    assert forall|pid: u32| #[trigger] next.contains(pid) implies pid == root || grown.contains(
        pid,
    ) by {
        let i = choose|i: int| 0 <= i < next.len() && next[i] == pid;
        if i < pending.len() - 1 {
            assert(pending[i] == pid);
            assert(pending.contains(pid));
        } else {
            assert(grown[found.len() + (i - (pending.len() - 1))] == pid);
        }
    }
    assert forall|above: u32, child: u32| #[trigger]
        is_child(nodes, above, child) && (above == root || grown.contains(above))
            && !next.contains(above) implies child == root || grown.contains(child) by {
        if above != parent {
            if pending.contains(above) {
                let i = choose|i: int| 0 <= i < pending.len() && pending[i] == above;
                assert(next[i] == above);
            }
            if above != root && !found.contains(above) {
                let i = choose|i: int| 0 <= i < grown.len() && grown[i] == above;
                assert(next[pending.len() - 1 + (i - found.len())] == above);
            }
        }
    }
}

/// The search finds each process below the root once, behind its parent.
proof fn lemma_search_order(
    nodes: Seq<ProcessNode>,
    root: u32,
    pending: Seq<u32>,
    found: Seq<u32>,
)
    requires
        searching(nodes, root, pending, found),
    ensures
        searching(nodes, root, Seq::empty(), search_order(nodes, root, pending, found)),
    decreases unfound(nodes, found), pending.len(),
{
    if pending.len() == 0 {
        assert(pending =~= Seq::empty());
    } else {
        let grown = with_children(nodes, root, pending.last(), found);
        lemma_search_round(nodes, root, pending, found);
        lemma_unfound(nodes, root, pending.last(), found);
        lemma_search_order(
            nodes,
            root,
            pending.drop_last() + grown.skip(found.len() as int),
            grown,
        );
    }
}

/// A process that stands behind its parent, in a list where all do, descends
/// from the root.
proof fn lemma_listed_descends(nodes: Seq<ProcessNode>, root: u32, pids: Seq<u32>, k: int)
    requires
        parents_first(nodes, root, pids),
        0 <= k < pids.len(),
    ensures
        descends(nodes, root, pids[k]),
    decreases k,
{
    assert(has_earlier_parent(nodes, root, pids, k));
    if is_child(nodes, root, pids[k]) {
        let path = seq![root, pids[k]];
        assert(is_lineage(nodes, path));
    } else {
        let j = choose|j: int| 0 <= j < k && is_child(nodes, #[trigger] pids[j], pids[k]);
        lemma_listed_descends(nodes, root, pids, j);
        let path = choose|path: Seq<u32>| #[trigger]
            is_lineage(nodes, path) && path.first() == root && path.last() == pids[j];
        let longer = path.push(pids[k]);
        assert forall|i: int| 0 <= i < longer.len() - 1 implies is_child(
            nodes,
            #[trigger] longer[i],
            longer[i + 1],
        ) by {
            if i < path.len() - 1 {
                assert(is_child(nodes, path[i], path[i + 1]));
            }
        }
        assert(is_lineage(nodes, longer));
    }
}

/// Where the search is over, every process on a lineage from the root is found.
proof fn lemma_lineage_found(
    nodes: Seq<ProcessNode>,
    root: u32,
    found: Seq<u32>,
    path: Seq<u32>,
    k: int,
)
    requires
        explored(nodes, root, Seq::empty(), found),
        is_lineage(nodes, path),
        path.first() == root,
        0 <= k < path.len(),
    ensures
        path[k] == root || found.contains(path[k]),
    decreases k,
{
    if k > 0 {
        lemma_lineage_found(nodes, root, found, path, k - 1);
        assert(is_child(nodes, path[k - 1], path[k - 1 + 1]));
    }
}

/// The search from the root alone finds exactly the processes below it, each
/// once and behind its parent.
pub proof fn law_search_finds_descendants(nodes: Seq<ProcessNode>, root: u32)
    ensures
        ({
            let found = search_order(nodes, root, seq![root], Seq::empty());
            &&& found.no_duplicates()
            &&& parents_first(nodes, root, found)
            &&& forall|pid: u32| #[trigger]
                found.contains(pid) <==> pid != root && descends(nodes, root, pid)
        }),
{
    let none = Seq::<u32>::empty();
    let start = seq![root];
    assert(start[0] == root);
    assert(start.contains(root));
    assert(searching(nodes, root, start, none));
    lemma_search_order(nodes, root, start, none);
    let found = search_order(nodes, root, start, none);
    assert forall|pid: u32| #[trigger] found.contains(pid) <==> pid != root && descends(
        nodes,
        root,
        pid,
    ) by {
        if found.contains(pid) {
            let k = choose|k: int| 0 <= k < found.len() && found[k] == pid;
            lemma_listed_descends(nodes, root, found, k);
        }
        if pid != root && descends(nodes, root, pid) {
            let path = choose|path: Seq<u32>| #[trigger]
                is_lineage(nodes, path) && path.first() == root && path.last() == pid;
            lemma_lineage_found(nodes, root, found, path, path.len() - 1);
        }
    }
}

/// Whether `pid` is in the list.
fn is_listed(pids: &Vec<u32>, pid: u32) -> (res: bool)
    ensures
        res == pids@.contains(pid),
{
    let mut i: usize = 0;
    while i < pids.len()
        invariant
            i <= pids.len(),
            forall|j: int| 0 <= j < i ==> pids@[j] != pid,
        decreases pids.len() - i,
    {
        if pids[i] == pid {
            return true;
        }
        i += 1;
    }
    false
}

/// The processes of the snapshot below `root_pid`, at any depth, in the order in
/// which the search finds them. The root itself is never among them, even where
/// a recycled process id makes it its own descendant.
pub fn webview_descendants(nodes: &Vec<ProcessNode>, root_pid: u32) -> (found: Vec<u32>)
    ensures
        found@.no_duplicates(),
        parents_first(nodes@, root_pid, found@),
        forall|pid: u32| #[trigger]
            found@.contains(pid) <==> pid != root_pid && descends(nodes@, root_pid, pid),
        found@ == search_order(nodes@, root_pid, seq![root_pid], Seq::empty()),
{
    let mut found: Vec<u32> = Vec::new();
    let mut pending: Vec<u32> = Vec::new();
    pending.push(root_pid);
    assert(pending@ =~= seq![root_pid]);
    let ghost order = search_order(nodes@, root_pid, seq![root_pid], Seq::empty());
    while pending.len() > 0
        invariant
            search_order(nodes@, root_pid, pending@, found@) == order,
        decreases unfound(nodes@, found@), pending@.len(),
    {
        let ghost pending_before = pending@;
        let ghost found_before = found@;
        let parent_pid: u32 = pending[pending.len() - 1];
        pending.pop();
        let mut i: usize = 0;
        while i < nodes.len()
            invariant
                i <= nodes.len(),
                pending_before.len() > 0,
                found_before.len() <= found@.len(),
                found@ == with_children(nodes@.take(i as int), root_pid, parent_pid, found_before),
                pending@ == pending_before.drop_last() + found@.skip(found_before.len() as int),
            decreases nodes.len() - i,
        {
            let node = nodes[i];
            proof {
                assert(nodes@.take(i + 1).drop_last() =~= nodes@.take(i as int));
            }
            if !(node.parent_pid != parent_pid || node.pid == root_pid || is_listed(
                &found,
                node.pid,
            )) {
                let ghost fresh = found@.skip(found_before.len() as int);
                found.push(node.pid);
                pending.push(node.pid);
                assert(found@.skip(found_before.len() as int) =~= fresh.push(node.pid));
                assert(pending@ =~= pending_before.drop_last() + fresh.push(node.pid));
            }
            i += 1;
        }
        proof {
            assert(nodes@.take(i as int) =~= nodes@);
            lemma_unfound(nodes@, root_pid, parent_pid, found_before);
        }
    }
    proof {
        law_search_finds_descendants(nodes@, root_pid);
    }
    found
}

/// Whether the snapshot holds an entry that says that `parent` started `child`.
pub open spec fn has_entry(nodes: Seq<ProcessNode>, parent: u32, child: u32) -> bool {
    exists|i: int|
        0 <= i < nodes.len() && (#[trigger] nodes[i]).pid == child && nodes[i].parent_pid == parent
}

/// A process is listed under another exactly where some entry, at whatever position,
/// says so.
pub proof fn law_every_entry_is_regarded(nodes: Seq<ProcessNode>, parent: u32, child: u32)
    ensures
        is_child(nodes, parent, child) <==> has_entry(nodes, parent, child),
{
    let wanted = ProcessNode { pid: child, parent_pid: parent };
    if is_child(nodes, parent, child) {
        let i = choose|i: int| 0 <= i < nodes.len() && nodes[i] == wanted;
        assert(nodes[i].pid == child);
    }
    if has_entry(nodes, parent, child) {
        let i = choose|i: int|
            0 <= i < nodes.len() && (#[trigger] nodes[i]).pid == child && nodes[i].parent_pid
                == parent;
        assert(nodes[i] == wanted);
    }
}

/// Every process listed under the root descends from it, and so does every process
/// listed under one that does, at any depth.
pub proof fn law_descent_goes_down(nodes: Seq<ProcessNode>, root: u32, parent: u32, child: u32)
    requires
        has_entry(nodes, parent, child),
        parent == root || descends(nodes, root, parent),
    ensures
        descends(nodes, root, child),
{
    law_every_entry_is_regarded(nodes, parent, child);
    if parent == root {
        assert(is_lineage(nodes, seq![root, child]));
    } else {
        let path = choose|path: Seq<u32>| #[trigger]
            is_lineage(nodes, path) && path.first() == root && path.last() == parent;
        let longer = path.push(child);
        assert forall|i: int| 0 <= i < longer.len() - 1 implies is_child(
            nodes,
            #[trigger] longer[i],
            longer[i + 1],
        ) by {
            if i < path.len() - 1 {
                assert(is_child(nodes, path[i], path[i + 1]));
            }
        }
        assert(is_lineage(nodes, longer));
    }
}

/// Nothing else descends from the root: what descends from it is in every family that
/// holds what is listed under the root and under its own members.
pub proof fn law_descent_is_least(
    nodes: Seq<ProcessNode>,
    root: u32,
    pid: u32,
    family: Set<u32>,
)
    requires
        descends(nodes, root, pid),
        forall|parent: u32, child: u32| #[trigger]
            has_entry(nodes, parent, child) && (parent == root || family.contains(parent))
                ==> family.contains(child),
    ensures
        family.contains(pid),
{
    let path = choose|path: Seq<u32>| #[trigger]
        is_lineage(nodes, path) && path.first() == root && path.last() == pid;
    lemma_lineage_in_family(nodes, root, path, family, path.len() - 1);
}

proof fn lemma_lineage_in_family(
    nodes: Seq<ProcessNode>,
    root: u32,
    path: Seq<u32>,
    family: Set<u32>,
    k: int,
)
    requires
        is_lineage(nodes, path),
        path.first() == root,
        forall|parent: u32, child: u32| #[trigger]
            has_entry(nodes, parent, child) && (parent == root || family.contains(parent))
                ==> family.contains(child),
        1 <= k < path.len(),
    ensures
        family.contains(path[k]),
    decreases k,
{
    if k > 1 {
        lemma_lineage_in_family(nodes, root, path, family, k - 1);
    }
    assert(is_child(nodes, path[k - 1], path[k - 1 + 1]));
    law_every_entry_is_regarded(nodes, path[k - 1], path[k]);
}

/// Whether the snapshot lists `first` under `parent` before it lists `second` there.
pub open spec fn listed_before(
    nodes: Seq<ProcessNode>,
    parent: u32,
    first: u32,
    second: u32,
) -> bool {
    exists|k: int|
        0 <= k < nodes.len() && (#[trigger] nodes[k]).pid == first && nodes[k].parent_pid == parent
            && forall|j: int|
            0 <= j <= k ==> !((#[trigger] nodes[j]).pid == second && nodes[j].parent_pid == parent)
}

proof fn lemma_children_keep_order(nodes: Seq<ProcessNode>, root: u32, parent: u32, found: Seq<u32>)
    ensures
        ({
            let grown = with_children(nodes, root, parent, found);
            forall|a: int, b: int|
                found.len() <= a < b < grown.len() ==> listed_before(
                    nodes,
                    parent,
                    #[trigger] grown[a],
                    #[trigger] grown[b],
                )
        }),
    decreases nodes.len(),
{
    let grown = with_children(nodes, root, parent, found);
    if nodes.len() > 0 {
        let shorter = nodes.drop_last();
        let before = with_children(shorter, root, parent, found);
        lemma_children_keep_order(shorter, root, parent, found);
        lemma_with_children(shorter, root, parent, found);
        assert forall|a: int, b: int| found.len() <= a < b < grown.len() implies listed_before(
            nodes,
            parent,
            #[trigger] grown[a],
            #[trigger] grown[b],
        ) by {
            assert(grown[a] == before[a]);
            if b < before.len() {
                assert(grown[b] == before[b]);
                assert(listed_before(shorter, parent, before[a], before[b]));
                let k = choose|k: int|
                    0 <= k < shorter.len() && (#[trigger] shorter[k]).pid == before[a]
                        && shorter[k].parent_pid == parent && forall|j: int|
                        0 <= j <= k ==> !((#[trigger] shorter[j]).pid == before[b]
                            && shorter[j].parent_pid == parent);
                assert(nodes[k] == shorter[k]);
                assert forall|j: int| 0 <= j <= k implies !((#[trigger] nodes[j]).pid == grown[b]
                    && nodes[j].parent_pid == parent) by {
                    assert(nodes[j] == shorter[j]);
                }
            } else {
                let fresh = nodes.last().pid;
                assert(grown[b] == fresh);
                assert(!before.contains(fresh));
                assert(is_child(shorter, parent, before[a]));
                let k = choose|k: int|
                    0 <= k < shorter.len() && shorter[k] == (ProcessNode {
                        pid: before[a],
                        parent_pid: parent,
                    });
                assert(nodes[k] == shorter[k]);
                assert forall|j: int| 0 <= j <= k implies !((#[trigger] nodes[j]).pid == fresh
                    && nodes[j].parent_pid == parent) by {
                    if nodes[j].pid == fresh && nodes[j].parent_pid == parent {
                        assert(shorter[j] == (ProcessNode { pid: fresh, parent_pid: parent }));
                        assert(is_child(shorter, parent, fresh));
                    }
                }
            }
        }
    }
}

/// A round of the search takes up the process that was put last, finds exactly those
/// listed under it that were not found before and are not the root, each once and in
/// the order of the snapshot, and goes on with them put behind the others. A search
/// with nothing to take up is over.
pub proof fn law_search_takes_up_the_last(
    nodes: Seq<ProcessNode>,
    root: u32,
    pending: Seq<u32>,
    parent: u32,
    found: Seq<u32>,
)
    ensures
        search_order(nodes, root, Seq::empty(), found) == found,
        ({
            let fresh = with_children(nodes, root, parent, found).skip(found.len() as int);
            &&& search_order(nodes, root, pending.push(parent), found) == search_order(
                nodes,
                root,
                pending + fresh,
                found + fresh,
            )
            &&& forall|pid: u32| #[trigger]
                fresh.contains(pid) <==> has_entry(nodes, parent, pid) && pid != root
                    && !found.contains(pid)
            &&& forall|a: int, b: int|
                0 <= a < b < fresh.len() ==> listed_before(
                    nodes,
                    parent,
                    #[trigger] fresh[a],
                    #[trigger] fresh[b],
                )
        }),
{
    let grown = with_children(nodes, root, parent, found);
    let fresh = grown.skip(found.len() as int);
    lemma_with_children(nodes, root, parent, found);
    lemma_children_keep_order(nodes, root, parent, found);
    assert(grown =~= found + fresh) by {
        assert forall|i: int| 0 <= i < found.len() implies grown[i] == found[i] by {
            assert(grown.take(found.len() as int)[i] == grown[i]);
        }
    }
    let stack = pending.push(parent);
    assert(stack.last() == parent);
    assert(stack.drop_last() =~= pending);
    assert forall|pid: u32| #[trigger]
        fresh.contains(pid) <==> has_entry(nodes, parent, pid) && pid != root && !found.contains(
            pid,
        ) by {
        law_every_entry_is_regarded(nodes, parent, pid);
        if fresh.contains(pid) {
            let i = choose|i: int| 0 <= i < fresh.len() && fresh[i] == pid;
            assert(grown[found.len() + i] == pid);
        }
        if has_entry(nodes, parent, pid) && pid != root && !found.contains(pid) {
            assert(grown.contains(pid));
            let i = choose|i: int| 0 <= i < grown.len() && grown[i] == pid;
            if i < found.len() {
                assert(grown.take(found.len() as int)[i] == grown[i]);
                assert(found[i] == pid);
            }
            assert(fresh[i - found.len()] == pid);
        }
    }
    assert forall|a: int, b: int| 0 <= a < b < fresh.len() implies listed_before(
        nodes,
        parent,
        #[trigger] fresh[a],
        #[trigger] fresh[b],
    ) by {
        assert(fresh[a] == grown[found.len() + a]);
        assert(fresh[b] == grown[found.len() + b]);
    }
}

} // verus!
