use tiez_memory::generation::advance;
use tiez_memory::messages::{
    carries_position, contains_flag, Message, ProcAction, ProcEvent, WindowChange, SWP_HIDEWINDOW,
    SWP_SHOWWINDOW, WM_DESTROY, WM_SHOWWINDOW, WM_WINDOWPOSCHANGING,
};
use tiez_memory::window_visibility::{
    InstallAction, InstallEvent, Outcome, Reaction, ReleaseAction, ReleaseEvent, Visibility,
    WindowVisibility, HIDE_RELEASE_DELAY_MS, MAIN_WINDOW_SHOWN_EVENT, SUBCLASS_ID,
};

fn message(msg: u32, wparam: usize, position: Option<u32>) -> Message {
    Message { hwnd: 9, msg, wparam, lparam: 0x1000, position }
}

fn passed_on(reaction: Reaction) -> Outcome {
    Outcome { reaction, answer: None }
}

fn moved(flags: u32) -> Message {
    message(WM_WINDOWPOSCHANGING, 0, Some(flags))
}

fn show(wparam: usize) -> Message {
    message(WM_SHOWWINDOW, wparam, None)
}

fn hooked(hwnd: usize, hidden: bool) -> WindowVisibility {
    WindowVisibility {
        hook_installed: true,
        main_hwnd: hwnd,
        main_window_hidden: hidden,
        release_generation: 5,
    }
}

const SHOWN: Reaction = Reaction::Emit { event: MAIN_WINDOW_SHOWN_EVENT };

#[test]
fn generations_wrap_around() {
    assert_eq!(advance(0), 1);
    assert_eq!(advance(41), 42);
    assert_eq!(advance(usize::MAX), 0);
}

#[test]
fn messages_are_numbered_as_the_system_does() {
    assert_eq!((WM_DESTROY, WM_SHOWWINDOW, WM_WINDOWPOSCHANGING), (2, 24, 70));
    assert_eq!((SWP_SHOWWINDOW, SWP_HIDEWINDOW), (64, 128));
}

#[test]
fn flags_are_contained_whole() {
    assert!(contains_flag(0xFF, SWP_SHOWWINDOW));
    assert!(!contains_flag(0xBF, SWP_SHOWWINDOW));
    assert!(!contains_flag(0x40, 0xC0));
    assert!(contains_flag(0, 0));
}

#[test]
fn only_position_changes_carry_a_position() {
    assert!(carries_position(WM_WINDOWPOSCHANGING, 0x1000));
    assert!(carries_position(WM_WINDOWPOSCHANGING, -1));
    assert!(!carries_position(WM_WINDOWPOSCHANGING, 0));
    assert!(!carries_position(WM_SHOWWINDOW, 0x1000));
}

#[test]
fn messages_tell_the_change() {
    assert_eq!(moved(SWP_SHOWWINDOW | 3).change(), WindowChange::Shown);
    assert_eq!(moved(SWP_HIDEWINDOW | 3).change(), WindowChange::Hidden);
    assert_eq!(moved(SWP_HIDEWINDOW | SWP_SHOWWINDOW).change(), WindowChange::Shown);
    assert_eq!(moved(3).change(), WindowChange::Unchanged);
    assert_eq!(message(WM_WINDOWPOSCHANGING, 1, None).change(), WindowChange::Unchanged);
    assert_eq!(show(1).change(), WindowChange::Shown);
    assert_eq!(show(2).change(), WindowChange::Shown);
    assert_eq!(show(0).change(), WindowChange::Hidden);
    assert_eq!(message(WM_DESTROY, 1, None).change(), WindowChange::Destroyed);
    assert_eq!(message(15, 1, Some(SWP_SHOWWINDOW)).change(), WindowChange::Unrelated);
}

#[test]
fn hook_is_installed_step_by_step() {
    let mut state = WindowVisibility::new();
    assert_eq!(state.install(InstallEvent::Requested), InstallAction::FindWindow { label: "main" });
    assert_eq!(
        state.install(InstallEvent::WindowLookedUp { found: true }),
        InstallAction::ReadHandle
    );
    assert_eq!(
        state.install(InstallEvent::HandleRead { handle: Some(9) }),
        InstallAction::RunOnMainThread { hwnd: 9 }
    );
    assert_eq!(
        state.install(InstallEvent::MainThreadReached { hwnd: 9 }),
        InstallAction::AskVisible { window: 9, hwnd: 9 }
    );
    assert_eq!(
        state.install(InstallEvent::VisibilityRead { hwnd: 9, visible: false }),
        InstallAction::Subclass { hwnd: 9, id: 1338 }
    );
    assert_eq!(
        state.install(InstallEvent::Dispatched { accepted: true }),
        InstallAction::Finished
    );
    assert_eq!(
        state,
        WindowVisibility {
            hook_installed: true,
            main_hwnd: 9,
            main_window_hidden: true,
            release_generation: 0
        }
    );
}

#[test]
fn initial_visibility_is_taken_over() {
    let mut state = hooked(9, true);
    state.install(InstallEvent::VisibilityRead { hwnd: 9, visible: true });
    assert!(!state.main_window_hidden);
    let mut gone = hooked(0, false);
    assert_eq!(
        gone.install(InstallEvent::MainThreadReached { hwnd: 9 }),
        InstallAction::Subclass { hwnd: 9, id: SUBCLASS_ID }
    );
    assert!(gone.main_window_hidden);
}

#[test]
fn missing_window_ends_the_installation() {
    let mut state = WindowVisibility::new();
    assert_eq!(
        state.install(InstallEvent::WindowLookedUp { found: false }),
        InstallAction::Finished
    );
    assert_eq!(
        state.install(InstallEvent::HandleRead { handle: None }),
        InstallAction::Finished
    );
    assert_eq!(state, WindowVisibility::new());
}

#[test]
fn installing_again_does_nothing() {
    let mut state = hooked(9, false);
    assert_eq!(state.install(InstallEvent::Requested), InstallAction::Finished);
    assert_eq!(
        state.install(InstallEvent::HandleRead { handle: Some(8) }),
        InstallAction::Finished
    );
    assert_eq!(state, hooked(9, false));
}

#[test]
fn refused_hook_can_be_retried() {
    let mut state = WindowVisibility::new();
    state.install(InstallEvent::HandleRead { handle: Some(9) });
    assert!(state.hook_installed);
    assert_eq!(
        state.install(InstallEvent::Dispatched { accepted: false }),
        InstallAction::Finished
    );
    assert!(!state.hook_installed);
    assert_eq!(state.install(InstallEvent::Requested), InstallAction::FindWindow { label: "main" });
}

#[test]
fn one_showing_is_announced_once() {
    assert_eq!(MAIN_WINDOW_SHOWN_EVENT, "main-window-shown");
    let mut state = hooked(9, true);
    assert_eq!(state.subclass_proc(moved(SWP_SHOWWINDOW)), passed_on(SHOWN));
    assert_eq!(state.subclass_proc(show(1)), passed_on(Reaction::Nothing));
    assert_eq!(state, WindowVisibility { release_generation: 6, ..hooked(9, false) });
}

#[test]
fn one_hiding_schedules_one_release() {
    let mut state = hooked(9, false);
    assert_eq!(
        state.subclass_proc(show(0)),
        passed_on(Reaction::ScheduleRelease { generation: 6 })
    );
    assert_eq!(state.subclass_proc(moved(SWP_HIDEWINDOW)), passed_on(Reaction::Nothing));
    assert_eq!(state, WindowVisibility { release_generation: 6, ..hooked(9, true) });
}

#[test]
fn every_showing_is_announced() {
    let mut state = hooked(9, true);
    for _ in 0..3 {
        assert_eq!(state.on_shown(), SHOWN);
        assert_eq!(state.on_shown(), Reaction::Nothing);
        let reaction = state.on_hidden();
        assert_eq!(
            reaction,
            Reaction::ScheduleRelease { generation: state.release_generation }
        );
        assert_eq!(state.on_hidden(), Reaction::Nothing);
    }
    assert_eq!(state.release_generation, 11);
}

#[test]
fn undisturbed_release_hands_memory_back() {
    let mut state = hooked(9, false);
    let generation = state.schedule_release();
    assert_eq!(generation, 6);
    assert_eq!(HIDE_RELEASE_DELAY_MS, 3000);
    assert_eq!(
        state.release_step(generation, ReleaseEvent::Scheduled),
        ReleaseAction::Wait { millis: 3000 }
    );
    assert_eq!(
        state.release_step(generation, ReleaseEvent::DelayElapsed),
        ReleaseAction::AskVisible { hwnd: 9 }
    );
    assert_eq!(
        state.release_step(generation, ReleaseEvent::VisibilityRead { visible: false }),
        ReleaseAction::Trim
    );
}

#[test]
fn visible_window_keeps_its_memory() {
    let state = hooked(9, true);
    assert_eq!(
        state.release_step(5, ReleaseEvent::VisibilityRead { visible: true }),
        ReleaseAction::Stop
    );
}

#[test]
fn showing_cancels_the_release() {
    let mut state = hooked(9, false);
    let generation = match state.subclass_proc(show(0)).reaction {
        Reaction::ScheduleRelease { generation } => generation,
        other => panic!("{:?}", other),
    };
    state.subclass_proc(show(1));
    assert_eq!(
        state.release_step(generation, ReleaseEvent::DelayElapsed),
        ReleaseAction::Stop
    );
    state.subclass_proc(show(0));
    assert_eq!(
        state.release_step(generation, ReleaseEvent::DelayElapsed),
        ReleaseAction::Stop
    );
}

#[test]
fn destruction_forgets_the_window() {
    let mut state = hooked(9, true);
    assert_eq!(
        state.subclass_proc(message(WM_DESTROY, 0, None)),
        passed_on(Reaction::RemoveSubclass { hwnd: 9, id: 1338 })
    );
    assert_eq!(state, WindowVisibility { release_generation: 6, ..hooked(0, true) });
    assert_eq!(state.is_main_window_visible(), Visibility::Known { visible: false });
    assert_eq!(state.release_step(5, ReleaseEvent::DelayElapsed), ReleaseAction::Stop);
    assert_eq!(state.install(InstallEvent::Requested), InstallAction::Finished);
}

#[test]
fn release_without_a_window_needs_no_question() {
    let state = hooked(0, true);
    assert_eq!(state.release_step(5, ReleaseEvent::DelayElapsed), ReleaseAction::Trim);
    assert_eq!(hooked(9, true).is_main_window_visible(), Visibility::Ask { hwnd: 9 });
}

#[test]
fn unrelated_messages_change_nothing() {
    let mut state = hooked(9, true);
    assert_eq!(state.subclass_proc(moved(3)), passed_on(Reaction::Nothing));
    assert_eq!(state.subclass_proc(message(15, 1, None)), passed_on(Reaction::Nothing));
    assert_eq!(state, hooked(9, true));
}

#[test]
fn every_message_is_passed_on_once() {
    let messages = [
        moved(SWP_SHOWWINDOW),
        moved(3),
        show(0),
        show(1),
        message(WM_DESTROY, 7, None),
        message(0xC123, 8, None),
        message(0, 0, None),
    ];
    for message in messages {
        let mut state = hooked(9, true);
        let answer = state.subclass_proc(message).answer;
        let mut calls = Vec::new();
        let mut event = ProcEvent::Handled;
        loop {
            let action = message.conclude(answer, event);
            calls.push(action);
            match action {
                ProcAction::PassOn { .. } => event = ProcEvent::PassedOn { result: -5 },
                ProcAction::Return { .. } => break,
            }
        }
        assert_eq!(
            calls,
            vec![
                ProcAction::PassOn {
                    hwnd: message.hwnd,
                    msg: message.msg,
                    wparam: message.wparam,
                    lparam: message.lparam,
                },
                ProcAction::Return { result: -5 },
            ]
        );
    }
}

#[test]
fn answered_message_is_returned_at_once() {
    assert_eq!(show(1).conclude(Some(0), ProcEvent::Handled), ProcAction::Return { result: 0 });
    assert_eq!(show(1).conclude(Some(4), ProcEvent::Handled), ProcAction::Return { result: 4 });
}

#[test]
fn requests_that_cross_hook_once() {
    let mut state = WindowVisibility::new();
    let mut handed_over = 0;
    let events = [
        InstallEvent::Requested,
        InstallEvent::Requested,
        InstallEvent::WindowLookedUp { found: true },
        InstallEvent::WindowLookedUp { found: true },
        InstallEvent::HandleRead { handle: Some(9) },
        InstallEvent::HandleRead { handle: Some(9) },
        InstallEvent::Dispatched { accepted: true },
        InstallEvent::Requested,
    ];
    for event in events {
        if let InstallAction::RunOnMainThread { hwnd } = state.install(event) {
            assert_eq!(hwnd, 9);
            handed_over += 1;
        }
        state.subclass_proc(show(0));
        state.subclass_proc(message(WM_DESTROY, 0, None));
    }
    assert_eq!(handed_over, 1);
    assert!(state.hook_installed);
}

#[test]
fn release_outlives_the_hooking() {
    let mut state = hooked(9, true);
    state.install(InstallEvent::Requested);
    state.install(InstallEvent::VisibilityRead { hwnd: 9, visible: false });
    state.install(InstallEvent::Dispatched { accepted: true });
    assert_eq!(
        state.release_step(5, ReleaseEvent::DelayElapsed),
        ReleaseAction::AskVisible { hwnd: 9 }
    );
}

#[test]
fn destroyed_window_stays_unseen() {
    let mut state = hooked(9, false);
    state.subclass_proc(message(WM_DESTROY, 0, None));
    state.subclass_proc(show(0));
    state.install(InstallEvent::HandleRead { handle: Some(8) });
    state.subclass_proc(show(1));
    assert_eq!(state.is_main_window_visible(), Visibility::Known { visible: false });
}
