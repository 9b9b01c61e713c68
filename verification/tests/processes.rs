use tiez_memory::process_name::{is_webview_process, WEBVIEW_PROCESS_NAME};
use tiez_memory::process_tree::{webview_descendants, ProcessNode};
use tiez_memory::working_set::{
    snapshot_webview_processes, trim_process_tree, SnapshotAction, SnapshotEvent, TrimAction,
    TrimEvent,
};

fn units(text: &str) -> Vec<u16> {
    text.encode_utf16().collect()
}

fn node(pid: u32, parent_pid: u32) -> ProcessNode {
    ProcessNode { pid, parent_pid }
}

fn decoded_comparison(exe_file: &[u16]) -> bool {
    let len = exe_file.iter().position(|c| *c == 0).unwrap_or(exe_file.len());
    String::from_utf16_lossy(&exe_file[..len]).eq_ignore_ascii_case(WEBVIEW_PROCESS_NAME)
}

#[test]
fn name_of_the_browser_is_recognised() {
    assert_eq!(WEBVIEW_PROCESS_NAME, "msedgewebview2.exe");
    assert!(is_webview_process(&units("msedgewebview2.exe")));
    assert!(is_webview_process(&units("MSEdgeWebView2.EXE")));
}

#[test]
fn name_ends_at_the_first_nul() {
    let mut buffer = [0u16; 260];
    for (slot, unit) in buffer.iter_mut().zip(units("MsEdgeWebView2.exe")) {
        *slot = unit;
    }
    assert!(is_webview_process(&buffer));
    buffer[19] = 'x' as u16;
    assert!(is_webview_process(&buffer));
    buffer[18] = 'x' as u16;
    assert!(!is_webview_process(&buffer));
    buffer[3] = 0;
    assert!(!is_webview_process(&buffer));
}

#[test]
fn other_names_are_refused() {
    assert!(!is_webview_process(&[]));
    assert!(!is_webview_process(&[0]));
    assert!(!is_webview_process(&units("msedgewebview2.ex")));
    assert!(!is_webview_process(&units("msedgewebview2.exe ")));
    assert!(!is_webview_process(&units("msedge.exe")));
    assert!(!is_webview_process(&units("msedgewebview2-exe")));
    // Only the case of ASCII letters is ignored.
    assert!(!is_webview_process(&units("m\u{017F}edgewebview2.exe")));
    assert!(!is_webview_process(&units("\u{FF2D}sedgewebview2.exe")));
}

#[test]
fn name_test_agrees_with_decoding() {
    let name = units(WEBVIEW_PROCESS_NAME);
    let strange = [
        0u16, 0x20, 0x40, 0x41, 0x5A, 0x5B, 0x60, 0x61, 0x7A, 0x7B, 0x7F, 0x80, 0x212A, 0xD7FF,
        0xD800, 0xDBFF, 0xDC00, 0xDFFF, 0xE000, 0xFFFD, 0xFFFF,
    ];
    for at in 0..name.len() {
        for flipped in [0x20u16, 0x01, 0x100] {
            let mut changed = name.clone();
            changed[at] ^= flipped;
            assert_eq!(is_webview_process(&changed), decoded_comparison(&changed));
        }
        for first in strange {
            let mut changed = name.clone();
            changed[at] = first;
            assert_eq!(is_webview_process(&changed), decoded_comparison(&changed));
            for second in strange {
                let mut longer = changed.clone();
                longer.insert(at + 1, second);
                assert_eq!(is_webview_process(&longer), decoded_comparison(&longer));
            }
        }
    }
}

#[test]
fn descendants_of_every_depth_are_found() {
    // The host starts the browser, the browser starts the others.
    let nodes = vec![node(20, 10), node(30, 20), node(31, 20), node(40, 31), node(99, 98)];
    assert_eq!(webview_descendants(&nodes, 10), vec![20, 30, 31, 40]);
    assert_eq!(webview_descendants(&nodes, 20), vec![30, 31, 40]);
    assert_eq!(webview_descendants(&nodes, 98), vec![99]);
    assert_eq!(webview_descendants(&nodes, 7), Vec::<u32>::new());
    assert_eq!(webview_descendants(&vec![], 10), Vec::<u32>::new());
}

#[test]
fn the_last_one_found_is_searched_first() {
    let nodes = vec![node(2, 1), node(3, 1), node(4, 2), node(5, 3), node(6, 5)];
    assert_eq!(webview_descendants(&nodes, 1), vec![2, 3, 5, 6, 4]);
}

#[test]
fn a_child_listed_before_its_parent_is_found() {
    let nodes = vec![node(40, 31), node(31, 20), node(20, 10)];
    assert_eq!(webview_descendants(&nodes, 10), vec![20, 31, 40]);
}

#[test]
fn recycled_ids_do_not_trap_the_search() {
    // 1 -> 2 -> 3 -> 1, 3 -> 2, and a process that is its own parent.
    let nodes = vec![node(2, 1), node(3, 2), node(1, 3), node(2, 3), node(5, 5), node(1, 1)];
    assert_eq!(webview_descendants(&nodes, 1), vec![2, 3]);
    assert_eq!(webview_descendants(&nodes, 5), Vec::<u32>::new());
    assert_eq!(webview_descendants(&vec![node(2, 1), node(2, 1)], 1), vec![2]);
}

#[test]
fn snapshot_keeps_only_the_browser() {
    let listed = [
        (4u32, 0u32, "System"),
        (20, 10, "MSEDGEWEBVIEW2.exe"),
        (10, 4, "host.exe"),
        (30, 20, "msedgewebview2.exe"),
    ];
    let mut nodes = vec![node(1, 1)];
    let mut calls = Vec::new();
    let mut read = 0;
    let mut name = Vec::new();
    let mut event = SnapshotEvent::Requested;
    loop {
        let action = snapshot_webview_processes(&mut nodes, event);
        calls.push(action);
        match action {
            SnapshotAction::Open => event = SnapshotEvent::Opened { opened: Some(77) },
            SnapshotAction::ReadFirst { snapshot } | SnapshotAction::ReadNext { snapshot } => {
                event = if read < listed.len() {
                    let (pid, parent_pid, exe) = listed[read];
                    read += 1;
                    name = units(exe);
                    SnapshotEvent::Entry { snapshot, pid, parent_pid, exe_file: &name }
                } else {
                    SnapshotEvent::NoEntry { snapshot }
                };
            }
            SnapshotAction::Close { .. } | SnapshotAction::Finished => break,
        }
    }
    assert_eq!(nodes, vec![node(20, 10), node(30, 20)]);
    assert_eq!(
        calls,
        vec![
            SnapshotAction::Open,
            SnapshotAction::ReadFirst { snapshot: 77 },
            SnapshotAction::ReadNext { snapshot: 77 },
            SnapshotAction::ReadNext { snapshot: 77 },
            SnapshotAction::ReadNext { snapshot: 77 },
            SnapshotAction::ReadNext { snapshot: 77 },
            SnapshotAction::Close { snapshot: 77 },
        ]
    );
}

#[test]
fn snapshot_that_cannot_be_opened_is_empty() {
    let mut nodes = vec![node(1, 1)];
    assert_eq!(
        snapshot_webview_processes(&mut nodes, SnapshotEvent::Requested),
        SnapshotAction::Open
    );
    assert_eq!(
        snapshot_webview_processes(&mut nodes, SnapshotEvent::Opened { opened: None }),
        SnapshotAction::Finished
    );
    assert_eq!(nodes, Vec::new());
}

#[test]
fn snapshot_without_entries_is_closed() {
    let mut nodes = Vec::new();
    assert_eq!(
        snapshot_webview_processes(&mut nodes, SnapshotEvent::Opened { opened: Some(3) }),
        SnapshotAction::ReadFirst { snapshot: 3 }
    );
    assert_eq!(
        snapshot_webview_processes(&mut nodes, SnapshotEvent::NoEntry { snapshot: 3 }),
        SnapshotAction::Close { snapshot: 3 }
    );
}

fn trim(listed: Vec<u32>, refused: &[u32]) -> Vec<TrimAction> {
    let mut descendants = Vec::new();
    let mut calls = Vec::new();
    let mut event = TrimEvent::Requested;
    loop {
        let action = trim_process_tree(&descendants, event);
        calls.push(action);
        event = match action {
            TrimAction::EmptyOwn => TrimEvent::OwnEmptied,
            TrimAction::ListDescendants => {
                descendants = listed.clone();
                TrimEvent::DescendantsListed
            }
            TrimAction::Open { index, pid } => {
                let opened = if refused.contains(&pid) { None } else { Some(1000 + pid as usize) };
                TrimEvent::Opened { index, opened }
            }
            TrimAction::Empty { index, process } => TrimEvent::Emptied { index, process },
            TrimAction::Close { index, .. } => TrimEvent::Closed { index },
            TrimAction::Finished => break,
        };
    }
    calls
}

#[test]
fn trim_visits_each_descendant_in_turn() {
    assert_eq!(
        trim(vec![20, 30, 31], &[30]),
        vec![
            TrimAction::EmptyOwn,
            TrimAction::ListDescendants,
            TrimAction::Open { index: 0, pid: 20 },
            TrimAction::Empty { index: 0, process: 1020 },
            TrimAction::Close { index: 0, process: 1020 },
            TrimAction::Open { index: 1, pid: 30 },
            TrimAction::Open { index: 2, pid: 31 },
            TrimAction::Empty { index: 2, process: 1031 },
            TrimAction::Close { index: 2, process: 1031 },
            TrimAction::Finished,
        ]
    );
}

#[test]
fn trim_without_descendants_empties_the_host() {
    assert_eq!(
        trim(vec![], &[]),
        vec![TrimAction::EmptyOwn, TrimAction::ListDescendants, TrimAction::Finished]
    );
    assert_eq!(
        trim(vec![5], &[5]),
        vec![
            TrimAction::EmptyOwn,
            TrimAction::ListDescendants,
            TrimAction::Open { index: 0, pid: 5 },
            TrimAction::Finished,
        ]
    );
}

#[test]
fn trim_past_the_list_is_over() {
    let end = TrimEvent::Closed { index: usize::MAX };
    assert_eq!(trim_process_tree(&vec![5], end), TrimAction::Finished);
}

#[test]
fn only_browser_processes_are_found() {
    // A helper between two processes of the browser cuts the lower one off.
    let listed = [
        (20u32, 10u32, "msedgewebview2.exe"),
        (25, 20, "helper.exe"),
        (30, 25, "msedgewebview2.exe"),
        (35, 20, "msedgewebview2.exe"),
    ];
    let mut nodes = Vec::new();
    snapshot_webview_processes(&mut nodes, SnapshotEvent::Requested);
    for (pid, parent_pid, exe) in listed {
        let name = units(exe);
        let entry = SnapshotEvent::Entry { snapshot: 7, pid, parent_pid, exe_file: &name };
        assert_eq!(
            snapshot_webview_processes(&mut nodes, entry),
            SnapshotAction::ReadNext { snapshot: 7 }
        );
    }
    assert_eq!(webview_descendants(&nodes, 10), vec![20, 35]);
}
