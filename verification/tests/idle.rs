use tiez_memory::idle_memory::{
    IdleMemory, InstallAction, InstallEvent, Outcome, Reaction, ReleaseAction, ReleaseEvent,
    RequestAction, RequestEvent, RestoreAction, RestoreEvent, SuspendAction, SuspendEvent,
    TeardownAction, TeardownEvent,
};
use tiez_memory::messages::{Message, ProcAction, ProcEvent, SWP_HIDEWINDOW, SWP_SHOWWINDOW};

const RELEASE: u32 = 0xC123;

fn message(msg: u32, wparam: usize, position: Option<u32>) -> Message {
    Message { hwnd: 9, msg, wparam, lparam: -2, position }
}

fn show(wparam: usize) -> Message {
    message(24, wparam, None)
}

fn ready() -> IdleMemory {
    IdleMemory {
        hook_installed: true,
        main_hwnd: 9,
        controller_ptr: 100,
        core_ptr: 200,
        release_msg: RELEASE,
        release_generation: 5,
        is_released: false,
    }
}

fn resting() -> IdleMemory {
    IdleMemory { is_released: true, ..ready() }
}

fn passed_on(reaction: Reaction) -> Outcome {
    Outcome { reaction, answer: None }
}

#[test]
fn browser_is_hooked_step_by_step() {
    let mut state = IdleMemory::new();
    assert_eq!(state.install(InstallEvent::Requested), InstallAction::FindWindow { label: "main" });
    assert_eq!(
        state.install(InstallEvent::WindowLookedUp { found: true }),
        InstallAction::ReadHandle
    );
    assert_eq!(
        state.install(InstallEvent::HandleRead { handle: Some(9) }),
        InstallAction::RegisterMessage { name: "TiezIdleMemoryRelease" }
    );
    assert_eq!(
        state.install(InstallEvent::MessageRegistered { message: RELEASE }),
        InstallAction::RunOnWebviewThread
    );
    assert_eq!(
        state.install(InstallEvent::WebviewReached { core: Some(200), controller: 100 }),
        InstallAction::Subclass { hwnd: 9, id: 1338 }
    );
    assert_eq!(
        state.install(InstallEvent::Dispatched { accepted: true }),
        InstallAction::Finished
    );
    assert_eq!(state, IdleMemory { release_generation: 0, ..ready() });
    assert_eq!((state.controller(), state.core_webview()), (Some(100), Some(200)));
}

#[test]
fn browser_hook_ends_without_a_window() {
    let mut state = IdleMemory::new();
    assert_eq!(
        state.install(InstallEvent::WindowLookedUp { found: false }),
        InstallAction::Finished
    );
    assert_eq!(
        state.install(InstallEvent::HandleRead { handle: None }),
        InstallAction::Finished
    );
    assert_eq!(state, IdleMemory::new());
    assert_eq!((state.controller(), state.core_webview()), (None, None));
}

#[test]
fn older_browser_has_no_core() {
    let mut state = IdleMemory::new();
    state.install(InstallEvent::WebviewReached { core: None, controller: 100 });
    assert_eq!((state.controller(), state.core_webview()), (Some(100), None));
}

#[test]
fn hooking_the_browser_again_does_nothing() {
    let mut state = ready();
    assert_eq!(state.install(InstallEvent::Requested), InstallAction::Finished);
    assert_eq!(
        state.install(InstallEvent::HandleRead { handle: Some(8) }),
        InstallAction::Finished
    );
    assert_eq!(state, ready());
    assert_eq!(
        state.install(InstallEvent::Dispatched { accepted: false }),
        InstallAction::Finished
    );
    assert_eq!(state.install(InstallEvent::Requested), InstallAction::FindWindow { label: "main" });
}

#[test]
fn undisturbed_release_runs_to_its_end() {
    let mut state = ready();
    assert_eq!(
        state.subclass_proc(message(70, 0, Some(SWP_HIDEWINDOW))),
        passed_on(Reaction::ScheduleRelease { generation: 6 })
    );
    assert_eq!(
        state.release_step(6, ReleaseEvent::Scheduled),
        ReleaseAction::WaitHidden { millis: 3000 }
    );
    assert_eq!(
        state.release_step(6, ReleaseEvent::HideDelayElapsed),
        ReleaseAction::RequestSuspend { generation: 6 }
    );
    assert_eq!(
        state.request_suspend(6, RequestEvent::Requested),
        RequestAction::AskVisible { hwnd: 9, message: RELEASE }
    );
    assert_eq!(
        state.request_suspend(
            6,
            RequestEvent::VisibilityRead { hwnd: 9, message: RELEASE, visible: false }
        ),
        RequestAction::Post { hwnd: 9, message: RELEASE, wparam: 6 }
    );
    assert_eq!(
        state.request_suspend(6, RequestEvent::Posted),
        RequestAction::Answer { requested: true }
    );
    assert_eq!(
        state.release_step(6, ReleaseEvent::SuspendAnswered { requested: true }),
        ReleaseAction::WaitSettled { millis: 500 }
    );
    assert_eq!(state.release_step(6, ReleaseEvent::SettleDelayElapsed), ReleaseAction::Trim);
}

#[test]
fn refused_suspension_stops_the_release() {
    let state = ready();
    assert_eq!(
        state.release_step(5, ReleaseEvent::SuspendAnswered { requested: false }),
        ReleaseAction::Stop
    );
}

#[test]
fn request_needs_window_message_and_generation() {
    let refused = RequestAction::Answer { requested: false };
    assert_eq!(ready().request_suspend(4, RequestEvent::Requested), refused);
    let gone = IdleMemory { main_hwnd: 0, ..ready() };
    assert_eq!(gone.request_suspend(5, RequestEvent::Requested), refused);
    let unregistered = IdleMemory { release_msg: 0, ..ready() };
    assert_eq!(unregistered.request_suspend(5, RequestEvent::Requested), refused);
    assert_eq!(
        ready().request_suspend(
            5,
            RequestEvent::VisibilityRead { hwnd: 9, message: RELEASE, visible: true }
        ),
        refused
    );
}

#[test]
fn each_change_overtakes_the_release() {
    for change in [show(1), show(0), message(2, 0, None), message(70, 0, Some(SWP_SHOWWINDOW))] {
        let mut state = ready();
        state.subclass_proc(change);
        assert_eq!(state.release_generation, 6);
        assert_eq!(
            state.request_suspend(5, RequestEvent::Requested),
            RequestAction::Answer { requested: false }
        );
        assert_eq!(
            state.suspend_webview(SuspendEvent::Requested { generation: 5 }),
            SuspendAction::Finished
        );
        assert_eq!(state.release_step(5, ReleaseEvent::SettleDelayElapsed), ReleaseAction::Stop);
    }
}

#[test]
fn browser_rests_once_its_controller_is_hidden() {
    let mut state = ready();
    assert_eq!(
        state.subclass_proc(message(RELEASE, 5, None)),
        Outcome {
            reaction: Reaction::Suspend(SuspendAction::AskVisible { hwnd: 9 }),
            answer: Some(0)
        }
    );
    assert_eq!(
        state.suspend_webview(SuspendEvent::VisibilityRead { visible: false }),
        SuspendAction::Hide { controller: 100 }
    );
    assert!(!state.is_released);
    assert_eq!(
        state.suspend_webview(SuspendEvent::ControllerHidden { accepted: true }),
        SuspendAction::TrySuspend { core: 200 }
    );
    assert_eq!(state, resting());
}

#[test]
fn browser_stays_awake_where_a_step_fails() {
    let mut state = ready();
    assert_eq!(
        state.suspend_webview(SuspendEvent::VisibilityRead { visible: true }),
        SuspendAction::Finished
    );
    assert_eq!(
        state.suspend_webview(SuspendEvent::ControllerHidden { accepted: false }),
        SuspendAction::Finished
    );
    assert_eq!(state, ready());
    let mut gone = IdleMemory { main_hwnd: 0, ..ready() };
    assert_eq!(
        gone.suspend_webview(SuspendEvent::Requested { generation: 5 }),
        SuspendAction::Finished
    );
    let mut unknown = IdleMemory { controller_ptr: 0, ..ready() };
    assert_eq!(
        unknown.suspend_webview(SuspendEvent::VisibilityRead { visible: false }),
        SuspendAction::Finished
    );
}

#[test]
fn controller_is_hidden_even_without_a_core() {
    let mut state = IdleMemory { core_ptr: 0, ..ready() };
    assert_eq!(
        state.suspend_webview(SuspendEvent::ControllerHidden { accepted: true }),
        SuspendAction::Finished
    );
    assert!(state.is_released);
    assert_eq!(
        state.restore_webview(RestoreEvent::Requested),
        RestoreAction::Show { controller: 100 }
    );
}

#[test]
fn showing_wakes_a_resting_browser() {
    let mut state = resting();
    assert_eq!(
        state.subclass_proc(show(1)),
        passed_on(Reaction::Restore(RestoreAction::Resume { core: 200 }))
    );
    assert_eq!(
        state.restore_webview(RestoreEvent::Resumed),
        RestoreAction::Show { controller: 100 }
    );
    assert_eq!(state, IdleMemory { release_generation: 6, ..ready() });
    assert_eq!(
        state.subclass_proc(message(70, 0, Some(SWP_SHOWWINDOW))),
        passed_on(Reaction::Restore(RestoreAction::Finished))
    );
    assert_eq!(state.release_generation, 7);
}

#[test]
fn waking_without_a_controller_ends_early() {
    let mut state = IdleMemory { controller_ptr: 0, ..resting() };
    assert_eq!(
        state.restore_webview(RestoreEvent::Requested),
        RestoreAction::Resume { core: 200 }
    );
    assert_eq!(state.restore_webview(RestoreEvent::Resumed), RestoreAction::Finished);
}

#[test]
fn destruction_lets_go_of_everything_once() {
    let mut state = resting();
    assert_eq!(
        state.subclass_proc(message(2, 0, None)),
        passed_on(Reaction::Teardown(TeardownAction::ReleaseCore { core: 200 }))
    );
    assert_eq!(state.core_webview(), None);
    assert_eq!(
        state.teardown(9, TeardownEvent::CoreReleased),
        TeardownAction::ReleaseController { controller: 100 }
    );
    assert_eq!(
        state.teardown(9, TeardownEvent::ControllerReleased),
        TeardownAction::RemoveSubclass { hwnd: 9, id: 1338 }
    );
    assert_eq!(
        state,
        IdleMemory {
            main_hwnd: 0,
            controller_ptr: 0,
            core_ptr: 0,
            release_generation: 6,
            ..ready()
        }
    );
    assert_eq!(
        state.teardown(9, TeardownEvent::Requested),
        TeardownAction::RemoveSubclass { hwnd: 9, id: 1338 }
    );
    assert_eq!(state.restore_webview(RestoreEvent::Requested), RestoreAction::Finished);
}

#[test]
fn destruction_without_a_core_starts_with_the_controller() {
    let mut state = IdleMemory { core_ptr: 0, ..ready() };
    assert_eq!(
        state.teardown(9, TeardownEvent::Requested),
        TeardownAction::ReleaseController { controller: 100 }
    );
}

#[test]
fn only_the_release_message_is_kept() {
    let mut state = ready();
    assert_eq!(
        state.subclass_proc(message(RELEASE, 4, None)),
        Outcome { reaction: Reaction::Suspend(SuspendAction::Finished), answer: Some(0) }
    );
    assert_eq!(
        state.subclass_proc(message(RELEASE + 1, 5, None)),
        passed_on(Reaction::Nothing)
    );
    assert_eq!(state.subclass_proc(message(70, 5, None)), passed_on(Reaction::Nothing));
    assert_eq!(state, ready());
    let mut unregistered = IdleMemory { release_msg: 0, ..ready() };
    assert_eq!(
        unregistered.subclass_proc(message(0, 5, None)),
        passed_on(Reaction::Nothing)
    );
}

#[test]
fn release_generation_wraps_around() {
    let mut state = IdleMemory { release_generation: usize::MAX, ..ready() };
    assert_eq!(state.schedule_release(), 0);
    assert_eq!(state.schedule_release(), 1);
}

#[test]
fn release_message_ends_here_and_others_go_on() {
    let mut state = ready();
    let kept = message(RELEASE, 5, None);
    let answer = state.subclass_proc(kept).answer;
    assert_eq!(kept.conclude(answer, ProcEvent::Handled), ProcAction::Return { result: 0 });
    for other in [show(1), show(0), message(2, 3, None), message(RELEASE + 1, 5, None)] {
        let answer = state.subclass_proc(other).answer;
        assert_eq!(
            other.conclude(answer, ProcEvent::Handled),
            ProcAction::PassOn { hwnd: 9, msg: other.msg, wparam: other.wparam, lparam: -2 }
        );
        assert_eq!(
            other.conclude(answer, ProcEvent::PassedOn { result: 77 }),
            ProcAction::Return { result: 77 }
        );
    }
}

#[test]
fn crossing_requests_hook_the_browser_once() {
    let mut state = IdleMemory::new();
    let mut registered = 0;
    for handle in [None, Some(9), Some(9), None] {
        let action = state.install(InstallEvent::HandleRead { handle });
        if let InstallAction::RegisterMessage { .. } = action {
            registered += 1;
        }
        state.subclass_proc(message(2, 0, None));
    }
    assert_eq!(registered, 1);
    assert!(state.hook_installed);
}

#[test]
fn what_was_put_to_rest_is_woken() {
    let mut state = ready();
    assert_eq!(
        state.suspend_webview(SuspendEvent::VisibilityRead { visible: false }),
        SuspendAction::Hide { controller: 100 }
    );
    state.subclass_proc(show(0));
    assert_eq!(
        state.suspend_webview(SuspendEvent::ControllerHidden { accepted: true }),
        SuspendAction::TrySuspend { core: 200 }
    );
    state.subclass_proc(show(0));
    state.install(InstallEvent::Requested);
    state.subclass_proc(message(70, 0, Some(3)));
    assert_eq!(
        state.subclass_proc(show(1)),
        passed_on(Reaction::Restore(RestoreAction::Resume { core: 200 }))
    );
    state.subclass_proc(show(0));
    assert_eq!(
        state.restore_webview(RestoreEvent::Resumed),
        RestoreAction::Show { controller: 100 }
    );
}

#[test]
fn destroyed_window_stays_quiet() {
    let mut state = resting();
    state.subclass_proc(message(2, 0, None));
    state.teardown(9, TeardownEvent::CoreReleased);
    state.teardown(9, TeardownEvent::ControllerReleased);
    let generation = state.schedule_release();
    state.install(InstallEvent::Requested);
    state.install(InstallEvent::HandleRead { handle: Some(8) });
    assert_eq!(
        state.request_suspend(generation, RequestEvent::Requested),
        RequestAction::Answer { requested: false }
    );
    assert_eq!(
        state.suspend_webview(SuspendEvent::Requested { generation }),
        SuspendAction::Finished
    );
    assert_eq!(
        state.subclass_proc(show(1)),
        passed_on(Reaction::Restore(RestoreAction::Finished))
    );
    assert_eq!(
        state.teardown(8, TeardownEvent::Requested),
        TeardownAction::RemoveSubclass { hwnd: 8, id: 1338 }
    );
}
