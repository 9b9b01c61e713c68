//! Handing the physical pages of the host process and of the embedded browser
//! back to the system.

use vstd::prelude::*;

use crate::process_name::{is_webview_process, WEBVIEW_PROCESS_NAME};
use crate::process_tree::ProcessNode;

verus! {

/// What the system answered while the processes are being enumerated. A snapshot
/// is told by its handle.
#[derive(Clone, Copy, Debug, PartialEq, Eq)]
pub enum SnapshotEvent<'a> {
    Requested,
    Opened { opened: Option<usize> },
    Entry { snapshot: usize, pid: u32, parent_pid: u32, exe_file: &'a [u16] },
    NoEntry { snapshot: usize },
}

/// The next call of the enumeration. Nothing follows `Close` and `Finished`.
#[derive(Clone, Copy, Debug, PartialEq, Eq)]
pub enum SnapshotAction {
    Open,
    ReadFirst { snapshot: usize },
    ReadNext { snapshot: usize },
    Close { snapshot: usize },
    Finished,
}

/// The process of the embedded browser that an answer reports, where it reports
/// one.
pub open spec fn reported_webview(event: SnapshotEvent) -> Option<ProcessNode> {
    match event {
        SnapshotEvent::Entry { snapshot: _, pid, parent_pid, exe_file } => {
            if crate::process_name::spells(
                crate::process_name::before_nul(exe_file@),
                WEBVIEW_PROCESS_NAME@,
            ) {
                Some(ProcessNode { pid, parent_pid })
            } else {
                None
            }
        },
        _ => None,
    }
}

/// What is collected once an answer has come in.
pub open spec fn collected_after(
    nodes: Seq<ProcessNode>,
    event: SnapshotEvent,
) -> Seq<ProcessNode> {
    match (event, reported_webview(event)) {
        (SnapshotEvent::Requested, _) => Seq::empty(),
        (_, Some(node)) => nodes.push(node),
        (_, None) => nodes,
    }
}

/// The call that follows an answer: the snapshot is read to its end and closed.
pub open spec fn snapshot_call(event: SnapshotEvent) -> SnapshotAction {
    match event {
        SnapshotEvent::Requested => SnapshotAction::Open,
        SnapshotEvent::Opened { opened: Some(snapshot) } => SnapshotAction::ReadFirst {
            snapshot,
        },
        SnapshotEvent::Opened { opened: None } => SnapshotAction::Finished,
        SnapshotEvent::Entry { snapshot, pid: _, parent_pid: _, exe_file: _ } => {
            SnapshotAction::ReadNext { snapshot }
        },
        SnapshotEvent::NoEntry { snapshot } => SnapshotAction::Close { snapshot },
    }
}

/// One step of the enumeration of the processes of the embedded browser: takes
/// the answer to the last call, collects the process that it reports, and says
/// what to call next.
pub fn snapshot_webview_processes(
    nodes: &mut Vec<ProcessNode>,
    event: SnapshotEvent,
) -> (action: SnapshotAction)
    ensures
        final(nodes)@ == collected_after(old(nodes)@, event),
        action == snapshot_call(event),
{
    match event {
        SnapshotEvent::Requested => {
            nodes.clear();
            SnapshotAction::Open
        },
        SnapshotEvent::Opened { opened } => match opened {
            Some(snapshot) => SnapshotAction::ReadFirst { snapshot },
            None => SnapshotAction::Finished,
        },
        SnapshotEvent::Entry { snapshot, pid, parent_pid, exe_file } => {
            if is_webview_process(exe_file) {
                nodes.push(ProcessNode { pid, parent_pid });
            }
            SnapshotAction::ReadNext { snapshot }
        },
        SnapshotEvent::NoEntry { snapshot } => SnapshotAction::Close { snapshot },
    }
}

/// Whether `event` is an answer to the call `action`.
pub open spec fn answers_snapshot(action: SnapshotAction, event: SnapshotEvent) -> bool {
    match action {
        SnapshotAction::Open => event is Opened,
        SnapshotAction::ReadFirst { snapshot } | SnapshotAction::ReadNext { snapshot } => {
            ||| event is Entry && event->Entry_snapshot == snapshot
            ||| event is NoEntry && event->NoEntry_snapshot == snapshot
        },
        SnapshotAction::Close { .. } | SnapshotAction::Finished => false,
    }
}

/// Whether the answers belong to one enumeration, from its start on: each
/// answers the call that followed the one before it.
pub open spec fn is_snapshot_run(run: Seq<SnapshotEvent>) -> bool {
    &&& run.len() > 0
    &&& run[0] is Requested
    &&& forall|i: int|
        0 <= i < run.len() - 1 ==> answers_snapshot(snapshot_call(#[trigger] run[i]), run[i + 1])
}

/// What an enumeration has collected after all of its answers.
pub open spec fn collected(run: Seq<SnapshotEvent>) -> Seq<ProcessNode>
    decreases run.len(),
{
    if run.len() == 0 {
        Seq::empty()
    } else {
        collected_after(collected(run.drop_last()), run.last())
    }
}

/// An enumeration collects exactly the processes of the embedded browser that
/// were reported to it, in the order of the reports.
pub proof fn law_snapshot_collects_reported(run: Seq<SnapshotEvent>)
    requires
        is_snapshot_run(run),
    ensures
        collected(run) == run.filter_map(|event: SnapshotEvent| reported_webview(event)),
    decreases run.len(),
{
    let report = |event: SnapshotEvent| reported_webview(event);
    let before = run.drop_last();
    if before.len() == 0 {
        assert(before.filter_map(report) =~= Seq::empty());
        assert(run.last() is Requested);
    } else {
        assert forall|i: int| 0 <= i < before.len() - 1 implies answers_snapshot(
            snapshot_call(#[trigger] before[i]),
            before[i + 1],
        ) by {
            assert(answers_snapshot(snapshot_call(run[i]), run[i + 1]));
        }
        law_snapshot_collects_reported(before);
        let k = run.len() - 2;
        assert(answers_snapshot(snapshot_call(run[k]), run[k + 1]));
        assert(!(run.last() is Requested));
        match reported_webview(run.last()) {
            Some(node) => {
                assert(collected(before).push(node) =~= before.filter_map(report) + seq![node]);
            },
            None => {},
        }
    }
}

/// An enumeration ends by closing the snapshot that it opened. Where it could open
/// none, it ends there with nothing collected.
pub proof fn law_snapshot_is_closed(run: Seq<SnapshotEvent>)
    requires
        is_snapshot_run(run),
        snapshot_call(run.last()) is Close || snapshot_call(run.last()) is Finished,
    ensures
        run.len() >= 2,
        run[1] is Opened,
        match run[1]->opened {
            Some(snapshot) => snapshot_call(run.last()) == (SnapshotAction::Close { snapshot }),
            None => run.len() == 2 && snapshot_call(run.last()) is Finished && collected(run)
                == Seq::<ProcessNode>::empty(),
        },
{
    assert(run.len() >= 2);
    assert(answers_snapshot(snapshot_call(run[0]), run[1]));
    match run[1]->opened {
        Some(snapshot) => {
            lemma_snapshot_stays(run, snapshot, run.len() - 1);
        },
        None => {
            if run.len() > 2 {
                assert(answers_snapshot(snapshot_call(run[1]), run[2]));
            }
            law_snapshot_collects_reported(run);
            reveal_with_fuel(Seq::filter_map, 3);
            let report = |event: SnapshotEvent| reported_webview(event);
            assert(run.drop_last().last() is Requested);
            assert(run.drop_last().drop_last().len() == 0);
            assert(run.filter_map(report) =~= Seq::empty());
        },
    }
}

/// Every call behind the opening of a snapshot is about that snapshot.
proof fn lemma_snapshot_stays(run: Seq<SnapshotEvent>, snapshot: usize, k: int)
    requires
        is_snapshot_run(run),
        run.len() >= 2,
        run[1] == (SnapshotEvent::Opened { opened: Some(snapshot) }),
        1 <= k < run.len(),
    ensures
        ({
            ||| snapshot_call(run[k]) == (SnapshotAction::ReadFirst { snapshot })
            ||| snapshot_call(run[k]) == (SnapshotAction::ReadNext { snapshot })
            ||| snapshot_call(run[k]) == (SnapshotAction::Close { snapshot })
        }),
    decreases k,
{
    if k > 1 {
        lemma_snapshot_stays(run, snapshot, k - 1);
        assert(answers_snapshot(snapshot_call(run[k - 1]), run[k - 1 + 1]));
    }
}

/// What the system answered while the pages are handed back. `index` is the
/// position of the process in the list of descendants; a process is told by its
/// handle.
#[derive(Clone, Copy, Debug, PartialEq, Eq)]
pub enum TrimEvent {
    Requested,
    OwnEmptied,
    DescendantsListed,
    Opened { index: usize, opened: Option<usize> },
    Emptied { index: usize, process: usize },
    Closed { index: usize },
}

/// The next call of handing pages back. Nothing follows `Finished`.
#[derive(Clone, Copy, Debug, PartialEq, Eq)]
pub enum TrimAction {
    EmptyOwn,
    ListDescendants,
    Open { index: usize, pid: u32 },
    Empty { index: usize, process: usize },
    Close { index: usize, process: usize },
    Finished,
}

/// The call that takes up the descendant at position `index`, or the end where
/// the list is exhausted.
pub open spec fn take_up(descendants: Seq<u32>, index: int) -> TrimAction {
    if index < descendants.len() {
        TrimAction::Open { index: index as usize, pid: descendants[index] }
    } else {
        TrimAction::Finished
    }
}

/// The call that follows an answer. A process that cannot be opened is passed
/// over; one that was opened is emptied and closed before the next is taken up.
pub open spec fn trim_call(descendants: Seq<u32>, event: TrimEvent) -> TrimAction {
    match event {
        TrimEvent::Requested => TrimAction::EmptyOwn,
        TrimEvent::OwnEmptied => TrimAction::ListDescendants,
        TrimEvent::DescendantsListed => take_up(descendants, 0),
        TrimEvent::Opened { index, opened: Some(process) } => TrimAction::Empty { index, process },
        TrimEvent::Opened { index, opened: None } => take_up(descendants, index + 1),
        TrimEvent::Emptied { index, process } => TrimAction::Close { index, process },
        TrimEvent::Closed { index } => take_up(descendants, index + 1),
    }
}

fn take_up_after(descendants: &Vec<u32>, index: usize) -> (action: TrimAction)
    ensures
        action == take_up(descendants@, index + 1),
{
    if index < descendants.len() && index + 1 < descendants.len() {
        TrimAction::Open { index: index + 1, pid: descendants[index + 1] }
    } else {
        TrimAction::Finished
    }
}

/// One step of handing back the pages of the host process and of its
/// descendants: takes the answer to the last call and says what to call next.
/// The list of descendants is empty until it has been asked for.
pub fn trim_process_tree(descendants: &Vec<u32>, event: TrimEvent) -> (action: TrimAction)
    ensures
        action == trim_call(descendants@, event),
{
    match event {
        TrimEvent::Requested => TrimAction::EmptyOwn,
        TrimEvent::OwnEmptied => TrimAction::ListDescendants,
        TrimEvent::DescendantsListed => {
            if descendants.len() > 0 {
                TrimAction::Open { index: 0, pid: descendants[0] }
            } else {
                TrimAction::Finished
            }
        },
        TrimEvent::Opened { index, opened } => match opened {
            Some(process) => TrimAction::Empty { index, process },
            None => take_up_after(descendants, index),
        },
        TrimEvent::Emptied { index, process } => TrimAction::Close { index, process },
        TrimEvent::Closed { index } => take_up_after(descendants, index),
    }
}

/// Whether `event` is an answer to the call `action`.
pub open spec fn answers_trim(action: TrimAction, event: TrimEvent) -> bool {
    match action {
        TrimAction::EmptyOwn => event is OwnEmptied,
        TrimAction::ListDescendants => event is DescendantsListed,
        TrimAction::Open { index, pid: _ } => event is Opened && event->Opened_index == index,
        TrimAction::Empty { index, process } => event == (TrimEvent::Emptied { index, process }),
        TrimAction::Close { index, process: _ } => event == (TrimEvent::Closed { index }),
        TrimAction::Finished => false,
    }
}

/// Whether the answers belong to one round of handing pages back, from its start
/// on: each answers the call that followed the one before it.
pub open spec fn is_trim_run(descendants: Seq<u32>, run: Seq<TrimEvent>) -> bool {
    &&& run.len() > 0
    &&& run[0] is Requested
    &&& forall|i: int|
        0 <= i < run.len() - 1 ==> answers_trim(
            trim_call(descendants, #[trigger] run[i]),
            run[i + 1],
        )
}

/// The calls that followed the answers of a round.
pub open spec fn trim_calls(descendants: Seq<u32>, run: Seq<TrimEvent>) -> Seq<TrimAction> {
    run.map_values(|event: TrimEvent| trim_call(descendants, event))
}

/// The calls that one descendant takes, given whether it could be opened.
pub open spec fn visit(
    descendants: Seq<u32>,
    index: int,
    opened: Option<usize>,
) -> Seq<TrimAction> {
    let open = TrimAction::Open { index: index as usize, pid: descendants[index] };
    match opened {
        Some(process) => seq![
            open,
            TrimAction::Empty { index: index as usize, process },
            TrimAction::Close { index: index as usize, process },
        ],
        None => seq![open],
    }
}

/// The calls that the first descendants take, one after the other, given for each
/// whether it could be opened.
pub open spec fn visits(descendants: Seq<u32>, opened: Seq<Option<usize>>) -> Seq<TrimAction>
    decreases opened.len(),
{
    if opened.len() == 0 {
        Seq::empty()
    } else {
        visits(descendants, opened.drop_last()) + visit(
            descendants,
            opened.len() - 1,
            opened.last(),
        )
    }
}

/// The calls of every round: those of the host process first.
pub open spec fn own_calls() -> Seq<TrimAction> {
    seq![TrimAction::EmptyOwn, TrimAction::ListDescendants]
}

/// What an answer says of the opening of a descendant, where it is about one.
pub open spec fn opening(event: TrimEvent) -> Option<Option<usize>> {
    match event {
        TrimEvent::Opened { index: _, opened } => Some(opened),
        _ => None,
    }
}

/// The handles that opening the descendants gave, in the order of the answers, with
/// `None` for each that could not be opened.
pub open spec fn openings(run: Seq<TrimEvent>) -> Seq<Option<usize>> {
    run.filter_map(|event: TrimEvent| opening(event))
}

/// The openings behind the calls made so far: those of the completed visits, and
/// that of the visit under way.
spec fn openings_at(call: TrimAction, opened: Seq<Option<usize>>) -> Seq<Option<usize>> {
    match call {
        TrimAction::Empty { index: _, process } | TrimAction::Close { index: _, process } => {
            opened.push(Some(process))
        },
        _ => opened,
    }
}

/// Whether the calls made so far are those of the host process, those that the
/// first descendants take, and the beginning of a visit to the next one.
spec fn trim_progress(
    descendants: Seq<u32>,
    calls: Seq<TrimAction>,
    opened: Seq<Option<usize>>,
) -> bool {
    let done = own_calls() + visits(descendants, opened);
    let at = opened.len() as int;
    match calls.last() {
        TrimAction::EmptyOwn => opened.len() == 0 && calls == seq![TrimAction::EmptyOwn],
        TrimAction::ListDescendants => opened.len() == 0 && calls == own_calls(),
        TrimAction::Open { index, pid } => {
            &&& index == at
            &&& at < descendants.len()
            &&& calls == done + visit(descendants, at, None)
        },
        TrimAction::Empty { index, process } => {
            &&& index == at
            &&& at < descendants.len()
            &&& calls == done + visit(descendants, at, Some(process)).take(2)
        },
        TrimAction::Close { index, process } => {
            &&& index == at
            &&& at < descendants.len()
            &&& calls == done + visit(descendants, at, Some(process))
        },
        TrimAction::Finished => {
            &&& at == descendants.len()
            &&& calls == done.push(TrimAction::Finished)
        },
    }
}

/// One more answer carries the round one call further.
proof fn lemma_trim_step(
    descendants: Seq<u32>,
    calls: Seq<TrimAction>,
    event: TrimEvent,
    opened: Seq<Option<usize>>,
) -> (more: Seq<Option<usize>>)
    requires
        descendants.len() <= usize::MAX,
        calls.len() > 0,
        trim_progress(descendants, calls, opened),
        answers_trim(calls.last(), event),
    ensures
        trim_progress(descendants, calls.push(trim_call(descendants, event)), more),
        openings_at(trim_call(descendants, event), more) == match opening(event) {
            Some(reply) => openings_at(calls.last(), opened).push(reply),
            None => openings_at(calls.last(), opened),
        },
{
    let longer = calls.push(trim_call(descendants, event));
    let at = opened.len() as int;
    let done = own_calls() + visits(descendants, opened);
    match calls.last() {
        TrimAction::EmptyOwn => {
            assert(longer =~= own_calls());
            opened
        },
        TrimAction::ListDescendants => {
            assert(visits(descendants, opened) =~= Seq::empty());
            if descendants.len() > 0 {
                assert(longer =~= done + visit(descendants, 0, None));
            } else {
                assert(longer =~= done.push(TrimAction::Finished));
            }
            opened
        },
        TrimAction::Open { index, pid } => {
            match event->opened {
                Some(process) => {
                    assert(longer =~= done + visit(descendants, at, Some(process)).take(2));
                    opened
                },
                None => {
                    lemma_next_visit(descendants, longer, opened, None);
                    opened.push(None)
                },
            }
        },
        TrimAction::Empty { index, process } => {
            assert(longer =~= done + visit(descendants, at, Some(process)));
            opened
        },
        TrimAction::Close { index, process } => {
            lemma_next_visit(descendants, longer, opened, Some(process));
            opened.push(Some(process))
        },
        TrimAction::Finished => opened,
    }
}

/// How far a round has come.
proof fn lemma_trim_progress(descendants: Seq<u32>, run: Seq<TrimEvent>) -> (opened: Seq<
    Option<usize>,
>)
    requires
        descendants.len() <= usize::MAX,
        is_trim_run(descendants, run),
    ensures
        trim_progress(descendants, trim_calls(descendants, run), opened),
        openings_at(trim_calls(descendants, run).last(), opened) == openings(run),
    decreases run.len(),
{
    let calls = trim_calls(descendants, run);
    let report = |event: TrimEvent| opening(event);
    if run.len() == 1 {
        assert(run.drop_last().filter_map(report) =~= Seq::empty());
        assert(openings(run) =~= Seq::empty());
        assert(calls =~= seq![TrimAction::EmptyOwn]);
        Seq::empty()
    } else {
        let before = run.drop_last();
        assert forall|i: int| 0 <= i < before.len() - 1 implies answers_trim(
            trim_call(descendants, #[trigger] before[i]),
            before[i + 1],
        ) by {
            assert(answers_trim(trim_call(descendants, run[i]), run[i + 1]));
        }
        let opened = lemma_trim_progress(descendants, before);
        let calls_before = trim_calls(descendants, before);
        let k = run.len() - 2;
        assert(answers_trim(trim_call(descendants, run[k]), run[k + 1]));
        assert(calls_before.last() == trim_call(descendants, run[k]));
        assert(calls =~= calls_before.push(trim_call(descendants, run.last())));
        let more = lemma_trim_step(descendants, calls_before, run.last(), opened);
        match opening(run.last()) {
            Some(reply) => {
                assert(openings(run) =~= openings(before).push(reply));
            },
            None => {
                assert(openings(run) =~= openings(before));
            },
        }
        more
    }
}

/// A completed visit is followed by the next descendant.
proof fn lemma_next_visit(
    descendants: Seq<u32>,
    calls: Seq<TrimAction>,
    opened: Seq<Option<usize>>,
    reply: Option<usize>,
)
    requires
        opened.len() < descendants.len() <= usize::MAX,
        calls == (own_calls() + visits(descendants, opened) + visit(
            descendants,
            opened.len() as int,
            reply,
        )).push(take_up(descendants, opened.len() as int + 1)),
    ensures
        trim_progress(descendants, calls, opened.push(reply)),
{
    let more = opened.push(reply);
    assert(more.drop_last() =~= opened);
    let done = own_calls() + visits(descendants, more);
    assert(done =~= own_calls() + visits(descendants, opened) + visit(
        descendants,
        opened.len() as int,
        reply,
    ));
    if opened.len() + 1 < descendants.len() {
        assert(calls =~= done + visit(descendants, more.len() as int, None));
    }
}

/// A round that has ended emptied the host process and then visited every
/// descendant once, in the order of the list. Each that could be opened was
/// emptied and closed by the very handle that opening it gave, before the next
/// was opened; one that could not be opened did not stop the round.
pub proof fn law_trim_visits_all(descendants: Seq<u32>, run: Seq<TrimEvent>)
    requires
        descendants.len() <= usize::MAX,
        is_trim_run(descendants, run),
        trim_call(descendants, run.last()) is Finished,
    ensures
        openings(run).len() == descendants.len(),
        trim_calls(descendants, run) == (own_calls() + visits(descendants, openings(run))).push(
            TrimAction::Finished,
        ),
{
    let opened = lemma_trim_progress(descendants, run);
    let calls = trim_calls(descendants, run);
    assert(calls.last() == trim_call(descendants, run.last()));
    assert(calls == (own_calls() + visits(descendants, opened)).push(TrimAction::Finished));
}

/// Whether one of the calls opens the process.
pub open spec fn opens(calls: Seq<TrimAction>, pid: u32) -> bool {
    exists|i: int| 0 <= i < calls.len() && (#[trigger] calls[i]) is Open && calls[i]->pid == pid
}

proof fn lemma_opens_concat(a: Seq<TrimAction>, b: Seq<TrimAction>, pid: u32)
    ensures
        opens(a + b, pid) <==> opens(a, pid) || opens(b, pid),
{
    let both = a + b;
    if opens(a, pid) {
        let i = choose|i: int| 0 <= i < a.len() && (#[trigger] a[i]) is Open && a[i]->pid == pid;
        assert(both[i] == a[i]);
    }
    if opens(b, pid) {
        let i = choose|i: int| 0 <= i < b.len() && (#[trigger] b[i]) is Open && b[i]->pid == pid;
        assert(both[a.len() + i] == b[i]);
    }
    if opens(both, pid) {
        let i = choose|i: int|
            0 <= i < both.len() && (#[trigger] both[i]) is Open && both[i]->pid == pid;
        if i < a.len() {
            assert(a[i] == both[i]);
        } else {
            assert(b[i - a.len()] == both[i]);
        }
    }
}

/// The visits open exactly the processes that they are about.
proof fn lemma_visits_open(descendants: Seq<u32>, opened: Seq<Option<usize>>, pid: u32)
    requires
        opened.len() <= descendants.len(),
    ensures
        opens(visits(descendants, opened), pid) <==> descendants.take(
            opened.len() as int,
        ).contains(pid),
    decreases opened.len(),
{
    let seen = descendants.take(opened.len() as int);
    if opened.len() > 0 {
        let fewer = opened.drop_last();
        let at = opened.len() - 1;
        let last = visit(descendants, at, opened.last());
        lemma_visits_open(descendants, fewer, pid);
        lemma_opens_concat(visits(descendants, fewer), last, pid);
        assert(last[0] is Open && last[0]->pid == descendants[at]);
        assert(opens(last, pid) <==> pid == descendants[at]);
        let before = descendants.take(at);
        assert(seen =~= before.push(descendants[at]));
        if before.contains(pid) {
            let i = choose|i: int| 0 <= i < before.len() && before[i] == pid;
            assert(seen[i] == pid);
        }
        assert(seen[at] == descendants[at]);
    }
}

/// A round that has ended opened exactly the processes below the host process, at
/// whatever depth the snapshot lists them.
pub proof fn law_trim_reaches_descendants(
    nodes: Seq<ProcessNode>,
    root: u32,
    run: Seq<TrimEvent>,
    pid: u32,
)
    requires
        ({
            let descendants = crate::process_tree::search_order(nodes, root, seq![root], Seq::empty());
            &&& descendants.len() <= usize::MAX
            &&& is_trim_run(descendants, run)
            &&& trim_call(descendants, run.last()) is Finished
        }),
    ensures
        ({
            let descendants = crate::process_tree::search_order(nodes, root, seq![root], Seq::empty());
            opens(trim_calls(descendants, run), pid) <==> pid != root && crate::process_tree::descends(nodes, root, pid)
        }),
{
    let descendants = crate::process_tree::search_order(nodes, root, seq![root], Seq::empty());
    law_trim_visits_all(descendants, run);
    let opened = openings(run);
    let calls = trim_calls(descendants, run);
    let end = seq![TrimAction::Finished];
    assert(calls =~= own_calls() + visits(descendants, opened) + end);
    lemma_opens_concat(own_calls(), visits(descendants, opened), pid);
    lemma_opens_concat(own_calls() + visits(descendants, opened), end, pid);
    lemma_visits_open(descendants, opened, pid);
    assert(descendants.take(descendants.len() as int) =~= descendants);
    crate::process_tree::law_search_finds_descendants(nodes, root);
}

/// Whatever the search finds in a snapshot is a process of the embedded browser
/// that was reported while the snapshot was read.
pub proof fn law_only_browser_is_found(run: Seq<SnapshotEvent>, root: u32, pid: u32)
    requires
        is_snapshot_run(run),
        crate::process_tree::descends(collected(run), root, pid),
    ensures
        exists|i: int|
            0 <= i < run.len() && reported_webview(#[trigger] run[i]) is Some
                && reported_webview(run[i])->0.pid == pid,
{
    let nodes = collected(run);
    let path = choose|path: Seq<u32>| #[trigger]
        crate::process_tree::is_lineage(nodes, path) && path.first() == root && path.last() == pid;
    let k = path.len() - 2;
    assert(crate::process_tree::is_child(nodes, path[k], path[k + 1]));
    let node = ProcessNode { pid, parent_pid: path[k] };
    let report = |event: SnapshotEvent| reported_webview(event);
    law_snapshot_collects_reported(run);
    assert(run.filter_map(report).contains(node));
    run.lemma_filter_map_contains(report, node);
    let event = choose|event: SnapshotEvent|
        run.contains(event) && #[trigger] report(event) == Some(node);
    let i = choose|i: int| 0 <= i < run.len() && run[i] == event;
    assert(reported_webview(run[i]) == Some(node));
}

/// An answer reports a process of the embedded browser exactly where it is an entry
/// whose name is that of the executable, and it reports that entry.
pub proof fn law_browser_entries_are_reported(
    snapshot: usize,
    pid: u32,
    parent_pid: u32,
    exe_file: &[u16],
    other: SnapshotEvent,
)
    ensures
        crate::process_name::spells(
            crate::process_name::before_nul(exe_file@),
            WEBVIEW_PROCESS_NAME@,
        ) ==> reported_webview(SnapshotEvent::Entry { snapshot, pid, parent_pid, exe_file }) == Some(
            ProcessNode { pid, parent_pid },
        ),
        !crate::process_name::spells(
            crate::process_name::before_nul(exe_file@),
            WEBVIEW_PROCESS_NAME@,
        ) ==> reported_webview(
            SnapshotEvent::Entry { snapshot, pid, parent_pid, exe_file },
        ) is None,
        !(other is Entry) ==> reported_webview(other) is None,
{
}

/// Every report is collected behind the others, and nothing else changes what is
/// collected, but that a new enumeration begins with nothing.
pub proof fn law_each_report_is_collected(nodes: Seq<ProcessNode>, event: SnapshotEvent)
    ensures
        event is Requested ==> collected_after(nodes, event) == Seq::<ProcessNode>::empty(),
        reported_webview(event) is Some ==> collected_after(nodes, event) == nodes.push(
            reported_webview(event)->0,
        ),
        !(event is Requested) && reported_webview(event) is None ==> collected_after(nodes, event)
            == nodes,
{
}

/// A snapshot is read to its end: it is opened, its first entry is read, every entry,
/// whatever it is, is followed by reading the next one of the same snapshot, and it is
/// closed exactly where the system has no more entries. Where none could be opened the
/// enumeration is over.
pub proof fn law_snapshot_is_read_to_its_end(
    snapshot: usize,
    pid: u32,
    parent_pid: u32,
    exe_file: &[u16],
)
    ensures
        snapshot_call(SnapshotEvent::Requested) is Open,
        snapshot_call(SnapshotEvent::Opened { opened: Some(snapshot) }) == (
        SnapshotAction::ReadFirst { snapshot }),
        snapshot_call(SnapshotEvent::Opened { opened: None }) is Finished,
        snapshot_call(SnapshotEvent::Entry { snapshot, pid, parent_pid, exe_file }) == (
        SnapshotAction::ReadNext { snapshot }),
        snapshot_call(SnapshotEvent::NoEntry { snapshot }) == (SnapshotAction::Close { snapshot }),
{
}

/// An enumeration closes its snapshot only after the system answered that there are no
/// more entries, and every answer between the opening and that one is an entry.
pub proof fn law_closed_only_at_the_end(run: Seq<SnapshotEvent>)
    requires
        is_snapshot_run(run),
        snapshot_call(run.last()) is Close,
    ensures
        run.len() >= 3,
        run[0] is Requested,
        run[1] is Opened,
        run.last() is NoEntry,
        forall|i: int| 2 <= i < run.len() - 1 ==> (#[trigger] run[i]) is Entry,
{
    assert(run.len() >= 2);
    assert(answers_snapshot(snapshot_call(run[0]), run[1]));
    assert(run.len() >= 3);
    assert(answers_snapshot(snapshot_call(run[1]), run[2]));
    assert forall|i: int| 2 <= i < run.len() - 1 implies (#[trigger] run[i]) is Entry by {
        assert(answers_snapshot(snapshot_call(run[i]), run[i + 1]));
        assert(answers_snapshot(snapshot_call(run[i - 1]), run[i - 1 + 1]));
        assert(answers_snapshot(snapshot_call(run[i - 2]), run[i - 2 + 1]));
    }
}

/// The whole of any list of entries is read: whatever the entries are, the answers that
/// report them in order, with the end after them, belong to one enumeration, which
/// closes the snapshot then and has collected what they report.
pub proof fn law_whole_list_is_read(snapshot: usize, entries: Seq<SnapshotEvent>)
    requires
        forall|i: int|
            0 <= i < entries.len() ==> (#[trigger] entries[i]) is Entry
                && entries[i]->Entry_snapshot == snapshot,
    ensures
        ({
            let run = seq![
                SnapshotEvent::Requested,
                SnapshotEvent::Opened { opened: Some(snapshot) },
            ] + entries + seq![SnapshotEvent::NoEntry { snapshot }];
            &&& is_snapshot_run(run)
            &&& snapshot_call(run.last()) == (SnapshotAction::Close { snapshot })
            &&& collected(run) == entries.filter_map(
                |event: SnapshotEvent| reported_webview(event),
            )
        }),
{
    let start = seq![
        SnapshotEvent::Requested,
        SnapshotEvent::Opened { opened: Some(snapshot) },
    ];
    let end = SnapshotEvent::NoEntry { snapshot };
    let run = start + entries + seq![end];
    assert forall|i: int| 0 <= i < run.len() - 1 implies answers_snapshot(
        snapshot_call(#[trigger] run[i]),
        run[i + 1],
    ) by {
        if 2 <= i < 2 + entries.len() {
            assert(run[i] == entries[i - 2]);
        }
        if 2 <= i + 1 < 2 + entries.len() {
            assert(run[i + 1] == entries[i + 1 - 2]);
        }
    }
    law_snapshot_collects_reported(run);
    let report = |event: SnapshotEvent| reported_webview(event);
    assert(run.drop_last() =~= start + entries);
    assert(run.last() == end);
    assert(run.filter_map(report) == (start + entries).filter_map(report));
    lemma_start_reports_nothing(start, entries);
}

proof fn lemma_start_reports_nothing(start: Seq<SnapshotEvent>, entries: Seq<SnapshotEvent>)
    requires
        forall|i: int| 0 <= i < start.len() ==> !((#[trigger] start[i]) is Entry),
    ensures
        (start + entries).filter_map(|event: SnapshotEvent| reported_webview(event))
            == entries.filter_map(|event: SnapshotEvent| reported_webview(event)),
    decreases start.len() + entries.len(),
{
    let report = |event: SnapshotEvent| reported_webview(event);
    if entries.len() > 0 {
        assert((start + entries).drop_last() =~= start + entries.drop_last());
        assert((start + entries).last() == entries.last());
        lemma_start_reports_nothing(start, entries.drop_last());
    } else if start.len() > 0 {
        let before = start.drop_last();
        assert forall|i: int| 0 <= i < before.len() implies !((#[trigger] before[i]) is Entry) by {
            assert(before[i] == start[i]);
        }
        assert(start + entries =~= start);
        assert(before + entries =~= before);
        assert(!(start[start.len() - 1] is Entry));
        lemma_start_reports_nothing(before, entries);
    } else {
        assert(start + entries =~= entries);
    }
}

/// Handing pages back goes on to its end: the host process is emptied and its
/// descendants are listed; the first of them is opened, if there is one; each that
/// could be opened is emptied, and then closed, by its handle; and after that, or where
/// it could not be opened, the next one is opened, until there is none.
pub proof fn law_trim_goes_on(descendants: Seq<u32>, index: usize, process: usize)
    ensures
        trim_call(descendants, TrimEvent::Requested) is EmptyOwn,
        trim_call(descendants, TrimEvent::OwnEmptied) is ListDescendants,
        descendants.len() > 0 ==> trim_call(descendants, TrimEvent::DescendantsListed) == (
        TrimAction::Open { index: 0, pid: descendants[0] }),
        descendants.len() == 0 ==> trim_call(descendants, TrimEvent::DescendantsListed) is Finished,
        trim_call(descendants, TrimEvent::Opened { index, opened: Some(process) }) == (
        TrimAction::Empty { index, process }),
        trim_call(descendants, TrimEvent::Emptied { index, process }) == (TrimAction::Close {
            index,
            process,
        }),
        index + 1 < descendants.len() <= usize::MAX ==> {
            let next = TrimAction::Open {
                index: (index + 1) as usize,
                pid: descendants[index + 1],
            };
            &&& trim_call(descendants, TrimEvent::Opened { index, opened: None }) == next
            &&& trim_call(descendants, TrimEvent::Closed { index }) == next
        },
        index + 1 >= descendants.len() ==> {
            &&& trim_call(descendants, TrimEvent::Opened { index, opened: None }) is Finished
            &&& trim_call(descendants, TrimEvent::Closed { index }) is Finished
        },
{
}

} // verus!
