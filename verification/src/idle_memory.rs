//! Suspending the embedded browser while the main window is hidden, and handing
//! its memory back to the system.
//!
//! Objects of the browser are told by their addresses, windows by their handles;
//! 0 stands for none.

use vstd::prelude::*;

use crate::generation::advance;
use crate::messages::{Message, ProcAction, ProcEvent, WindowChange};

verus! {

/// How long the window has to stay hidden before memory is handed back. It keeps
/// quick toggling from paging memory out and in again.
pub const HIDE_RELEASE_DELAY_MS: u64 = 3000;

/// How long the browser gets to suspend itself once it was asked to. Only then is
/// it worth taking its pages.
pub const SUSPEND_SETTLE_DELAY_MS: u64 = 500;

/// The identity under which the window procedure is hooked.
pub const SUBCLASS_ID: usize = 1338;

/// The label of the window that is watched.
pub const MAIN_WINDOW_LABEL: &'static str = "main";

/// The name under which the message that asks for a suspension is registered.
pub const RELEASE_MESSAGE_NAME: &'static str = "TiezIdleMemoryRelease";

/// What is known about the main window and its browser.
#[derive(Clone, Copy, Debug, PartialEq, Eq)]
pub struct IdleMemory {
    /// Whether the window procedure is hooked, or is being hooked.
    pub hook_installed: bool,
    pub main_hwnd: usize,
    pub controller_ptr: usize,
    pub core_ptr: usize,
    /// The message that asks for a suspension, or 0 where none is registered.
    pub release_msg: u32,
    /// Advances whenever a pending release is to be forgotten.
    pub release_generation: usize,
    /// Whether the browser was put to rest and has to be woken up again.
    pub is_released: bool,
}

/// What the system answered while the hook is being installed.
#[derive(Clone, Copy, Debug, PartialEq, Eq)]
pub enum InstallEvent {
    Requested,
    WindowLookedUp { found: bool },
    HandleRead { handle: Option<usize> },
    MessageRegistered { message: u32 },
    /// The work handed to the thread of the browser begins. `core` is there where
    /// the browser can be suspended.
    WebviewReached { core: Option<usize>, controller: usize },
    /// Whether the thread of the browser took the work. It may do it later.
    Dispatched { accepted: bool },
}

/// The next call of the installation. Nothing follows `Subclass` and `Finished`.
#[derive(Clone, Copy, Debug, PartialEq, Eq)]
pub enum InstallAction {
    FindWindow { label: &'static str },
    ReadHandle,
    RegisterMessage { name: &'static str },
    RunOnWebviewThread,
    Subclass { hwnd: usize, id: usize },
    Finished,
}

/// What was done to wake the browser up.
#[derive(Clone, Copy, Debug, PartialEq, Eq)]
pub enum RestoreEvent {
    Requested,
    Resumed,
}

/// The next call of waking the browser up. Nothing follows `Show` and `Finished`.
#[derive(Clone, Copy, Debug, PartialEq, Eq)]
pub enum RestoreAction {
    Resume { core: usize },
    Show { controller: usize },
    Finished,
}

/// What the system answered while the browser is put to rest.
#[derive(Clone, Copy, Debug, PartialEq, Eq)]
pub enum SuspendEvent {
    Requested { generation: usize },
    VisibilityRead { visible: bool },
    ControllerHidden { accepted: bool },
}

/// The next call of putting the browser to rest. Nothing follows `TrySuspend` and
/// `Finished`.
#[derive(Clone, Copy, Debug, PartialEq, Eq)]
pub enum SuspendAction {
    AskVisible { hwnd: usize },
    Hide { controller: usize },
    TrySuspend { core: usize },
    Finished,
}

/// What was done to let go of the window and its browser.
#[derive(Clone, Copy, Debug, PartialEq, Eq)]
pub enum TeardownEvent {
    Requested,
    CoreReleased,
    ControllerReleased,
}

/// The next call of letting go. Nothing follows `RemoveSubclass`.
#[derive(Clone, Copy, Debug, PartialEq, Eq)]
pub enum TeardownAction {
    ReleaseCore { core: usize },
    ReleaseController { controller: usize },
    RemoveSubclass { hwnd: usize, id: usize },
}

/// What happened to a request to put the browser to rest. `hwnd` and `message`
/// are what was known when it began.
#[derive(Clone, Copy, Debug, PartialEq, Eq)]
pub enum RequestEvent {
    Requested,
    VisibilityRead { hwnd: usize, message: u32, visible: bool },
    Posted,
}

/// The next call of such a request. Nothing follows `Answer`.
#[derive(Clone, Copy, Debug, PartialEq, Eq)]
pub enum RequestAction {
    AskVisible { hwnd: usize, message: u32 },
    Post { hwnd: usize, message: u32, wparam: usize },
    Answer { requested: bool },
}

/// What happened to a scheduled release.
#[derive(Clone, Copy, Debug, PartialEq, Eq)]
pub enum ReleaseEvent {
    Scheduled,
    HideDelayElapsed,
    SuspendAnswered { requested: bool },
    SettleDelayElapsed,
}

/// The next call of a scheduled release. Nothing follows `Trim` and `Stop`.
#[derive(Clone, Copy, Debug, PartialEq, Eq)]
pub enum ReleaseAction {
    WaitHidden { millis: u64 },
    RequestSuspend { generation: usize },
    WaitSettled { millis: u64 },
    Trim,
    Stop,
}

/// What a message of the window calls for, with the first call to make.
#[derive(Clone, Copy, Debug, PartialEq, Eq)]
pub enum Reaction {
    Nothing,
    Restore(RestoreAction),
    ScheduleRelease { generation: usize },
    Suspend(SuspendAction),
    Teardown(TeardownAction),
}

/// How a message of the window is dealt with.
#[derive(Clone, Copy, Debug, PartialEq, Eq)]
pub struct Outcome {
    pub reaction: Reaction,
    /// The result to give for the message. Without one, the message is passed on
    /// to the next window procedure.
    pub answer: Option<isize>,
}

/// An address, where it is that of an object.
pub open spec fn present(ptr: usize) -> Option<usize> {
    if ptr == 0 {
        None
    } else {
        Some(ptr)
    }
}

impl IdleMemory {
    /// The state before anything is hooked.
    pub fn new() -> (state: Self)
        ensures
            state == (IdleMemory {
                hook_installed: false,
                main_hwnd: 0,
                controller_ptr: 0,
                core_ptr: 0,
                release_msg: 0,
                release_generation: 0,
                is_released: false,
            }),
    {
        IdleMemory {
            hook_installed: false,
            main_hwnd: 0,
            controller_ptr: 0,
            core_ptr: 0,
            release_msg: 0,
            release_generation: 0,
            is_released: false,
        }
    }

    /// The state with the generation moved on, so that pending releases are stale.
    pub open spec fn overtaken(self) -> Self {
        IdleMemory {
            release_generation: crate::generation::advanced(self.release_generation, 1),
            ..self
        }
    }

    /// The state and the call that follow an answer while the hook is being
    /// installed.
    pub open spec fn install_next(self, event: InstallEvent) -> (Self, InstallAction) {
        match event {
            InstallEvent::Requested => if self.hook_installed {
                (self, InstallAction::Finished)
            } else {
                (self, InstallAction::FindWindow { label: MAIN_WINDOW_LABEL })
            },
            InstallEvent::WindowLookedUp { found } => if found {
                (self, InstallAction::ReadHandle)
            } else {
                (self, InstallAction::Finished)
            },
            InstallEvent::HandleRead { handle } => match handle {
                Some(hwnd) if !self.hook_installed => (
                    IdleMemory { hook_installed: true, main_hwnd: hwnd, ..self },
                    InstallAction::RegisterMessage { name: RELEASE_MESSAGE_NAME },
                ),
                _ => (self, InstallAction::Finished),
            },
            InstallEvent::MessageRegistered { message } => (
                IdleMemory { release_msg: message, ..self },
                InstallAction::RunOnWebviewThread,
            ),
            InstallEvent::WebviewReached { core, controller } => (
                IdleMemory {
                    core_ptr: match core {
                        Some(core) => core,
                        None => self.core_ptr,
                    },
                    controller_ptr: controller,
                    ..self
                },
                InstallAction::Subclass { hwnd: self.main_hwnd, id: SUBCLASS_ID },
            ),
            InstallEvent::Dispatched { accepted } => (
                IdleMemory { hook_installed: self.hook_installed && accepted, ..self },
                InstallAction::Finished,
            ),
        }
    }

    /// The call that makes the browser visible to itself again, where there is
    /// one.
    pub open spec fn show_call(self) -> RestoreAction {
        match present(self.controller_ptr) {
            Some(controller) => RestoreAction::Show { controller },
            None => RestoreAction::Finished,
        }
    }

    /// The state and the call that follow a step of waking the browser up. A
    /// browser that was not put to rest is left alone.
    pub open spec fn restore_next(self, event: RestoreEvent) -> (Self, RestoreAction) {
        match event {
            RestoreEvent::Requested => (
                IdleMemory { is_released: false, ..self.overtaken() },
                if !self.is_released {
                    RestoreAction::Finished
                } else {
                    match present(self.core_ptr) {
                        Some(core) => RestoreAction::Resume { core },
                        None => self.show_call(),
                    }
                },
            ),
            RestoreEvent::Resumed => (self, self.show_call()),
        }
    }

    /// The state and the call that follow a step of putting the browser to rest.
    pub open spec fn suspend_next(self, event: SuspendEvent) -> (Self, SuspendAction) {
        match event {
            SuspendEvent::Requested { generation } => (
                self,
                if self.release_generation == generation && self.main_hwnd != 0 {
                    SuspendAction::AskVisible { hwnd: self.main_hwnd }
                } else {
                    SuspendAction::Finished
                },
            ),
            SuspendEvent::VisibilityRead { visible } => (
                self,
                match present(self.controller_ptr) {
                    Some(controller) if !visible => SuspendAction::Hide { controller },
                    _ => SuspendAction::Finished,
                },
            ),
            SuspendEvent::ControllerHidden { accepted } => if accepted {
                (
                    IdleMemory { is_released: true, ..self },
                    match present(self.core_ptr) {
                        Some(core) => SuspendAction::TrySuspend { core },
                        None => SuspendAction::Finished,
                    },
                )
            } else {
                (self, SuspendAction::Finished)
            },
        }
    }

    /// The state and the call that follow once the core is let go of.
    pub open spec fn drop_controller_next(self, hwnd: usize) -> (Self, TeardownAction) {
        (
            IdleMemory { controller_ptr: 0, ..self },
            match present(self.controller_ptr) {
                Some(controller) => TeardownAction::ReleaseController { controller },
                None => TeardownAction::RemoveSubclass { hwnd, id: SUBCLASS_ID },
            },
        )
    }

    /// The state and the call that follow a step of letting go of the window `hwnd`.
    pub open spec fn teardown_next(self, hwnd: usize, event: TeardownEvent) -> (
        Self,
        TeardownAction,
    ) {
        match event {
            TeardownEvent::Requested => {
                let left = IdleMemory {
                    main_hwnd: 0,
                    is_released: false,
                    core_ptr: 0,
                    ..self.overtaken()
                };
                match present(self.core_ptr) {
                    Some(core) => (left, TeardownAction::ReleaseCore { core }),
                    None => left.drop_controller_next(hwnd),
                }
            },
            TeardownEvent::CoreReleased => self.drop_controller_next(hwnd),
            TeardownEvent::ControllerReleased => (
                self,
                TeardownAction::RemoveSubclass { hwnd, id: SUBCLASS_ID },
            ),
        }
    }

    /// The call that follows a step of a request, made by the release with
    /// `generation`, to put the browser to rest.
    pub open spec fn request_call(self, generation: usize, event: RequestEvent) -> RequestAction {
        match event {
            RequestEvent::Requested => if self.release_generation == generation && self.main_hwnd
                != 0 && self.release_msg != 0 {
                RequestAction::AskVisible { hwnd: self.main_hwnd, message: self.release_msg }
            } else {
                RequestAction::Answer { requested: false }
            },
            RequestEvent::VisibilityRead { hwnd, message, visible } => if visible {
                RequestAction::Answer { requested: false }
            } else {
                RequestAction::Post { hwnd, message, wparam: generation }
            },
            RequestEvent::Posted => RequestAction::Answer { requested: true },
        }
    }

    /// The call that follows what happened to a release scheduled with
    /// `generation`.
    pub open spec fn release_call(self, generation: usize, event: ReleaseEvent) -> ReleaseAction {
        match event {
            ReleaseEvent::Scheduled => ReleaseAction::WaitHidden { millis: HIDE_RELEASE_DELAY_MS },
            ReleaseEvent::HideDelayElapsed => ReleaseAction::RequestSuspend { generation },
            ReleaseEvent::SuspendAnswered { requested } => if requested {
                ReleaseAction::WaitSettled { millis: SUSPEND_SETTLE_DELAY_MS }
            } else {
                ReleaseAction::Stop
            },
            ReleaseEvent::SettleDelayElapsed => if self.release_generation == generation {
                ReleaseAction::Trim
            } else {
                ReleaseAction::Stop
            },
        }
    }

    /// The state and the outcome that follow a message of the window. All but the
    /// message that asks for a suspension are passed on.
    pub open spec fn message_next(self, message: Message) -> (Self, Outcome) {
        match message.change_spec() {
            WindowChange::Shown => {
                let (next, first) = self.restore_next(RestoreEvent::Requested);
                (next, Outcome { reaction: Reaction::Restore(first), answer: None })
            },
            WindowChange::Hidden => (
                self.overtaken(),
                Outcome {
                    reaction: Reaction::ScheduleRelease {
                        generation: self.overtaken().release_generation,
                    },
                    answer: None,
                },
            ),
            WindowChange::Destroyed => {
                let (next, first) = self.teardown_next(message.hwnd, TeardownEvent::Requested);
                (next, Outcome { reaction: Reaction::Teardown(first), answer: None })
            },
            WindowChange::Unchanged => (
                self,
                Outcome { reaction: Reaction::Nothing, answer: None },
            ),
            WindowChange::Unrelated => if self.release_msg != 0 && message.msg
                == self.release_msg {
                let (next, first) = self.suspend_next(
                    SuspendEvent::Requested { generation: message.wparam },
                );
                (next, Outcome { reaction: Reaction::Suspend(first), answer: Some(0) })
            } else {
                (self, Outcome { reaction: Reaction::Nothing, answer: None })
            },
        }
    }

    /// One step of hooking the window procedure and getting hold of the browser.
    /// Once it is hooked, asking again does nothing, so every place that deals with
    /// the window may ask.
    pub fn install(&mut self, event: InstallEvent) -> (action: InstallAction)
        ensures
            (*final(self), action) == old(self).install_next(event),
    {
        match event {
            InstallEvent::Requested => {
                if self.hook_installed {
                    InstallAction::Finished
                } else {
                    InstallAction::FindWindow { label: MAIN_WINDOW_LABEL }
                }
            },
            InstallEvent::WindowLookedUp { found } => {
                if found {
                    InstallAction::ReadHandle
                } else {
                    InstallAction::Finished
                }
            },
            InstallEvent::HandleRead { handle } => {
                match handle {
                    Some(hwnd) => {
                        if self.hook_installed {
                            return InstallAction::Finished;
                        }
                        self.hook_installed = true;
                        self.main_hwnd = hwnd;
                        InstallAction::RegisterMessage { name: RELEASE_MESSAGE_NAME }
                    },
                    None => InstallAction::Finished,
                }
            },
            InstallEvent::MessageRegistered { message } => {
                self.release_msg = message;
                InstallAction::RunOnWebviewThread
            },
            InstallEvent::WebviewReached { core, controller } => {
                if let Some(core) = core {
                    self.core_ptr = core;
                }
                self.controller_ptr = controller;
                InstallAction::Subclass { hwnd: self.main_hwnd, id: SUBCLASS_ID }
            },
            InstallEvent::Dispatched { accepted } => {
                if !accepted {
                    self.hook_installed = false;
                }
                InstallAction::Finished
            },
        }
    }

    /// Takes a message of the window and says what it calls for.
    pub fn subclass_proc(&mut self, message: Message) -> (outcome: Outcome)
        ensures
            (*final(self), outcome) == old(self).message_next(message),
    {
        match message.change() {
            WindowChange::Shown => {
                let first = self.restore_webview(RestoreEvent::Requested);
                Outcome { reaction: Reaction::Restore(first), answer: None }
            },
            WindowChange::Hidden => {
                let generation: usize = self.schedule_release();
                Outcome { reaction: Reaction::ScheduleRelease { generation }, answer: None }
            },
            WindowChange::Destroyed => {
                let first = self.teardown(message.hwnd, TeardownEvent::Requested);
                Outcome { reaction: Reaction::Teardown(first), answer: None }
            },
            WindowChange::Unchanged => Outcome { reaction: Reaction::Nothing, answer: None },
            WindowChange::Unrelated => {
                if self.release_msg != 0 && message.msg == self.release_msg {
                    let first = self.suspend_webview(
                        SuspendEvent::Requested { generation: message.wparam },
                    );
                    return Outcome { reaction: Reaction::Suspend(first), answer: Some(0) };
                }
                Outcome { reaction: Reaction::Nothing, answer: None }
            },
        }
    }

    /// Begins a release: every earlier one is forgotten, and the new one goes by
    /// the generation returned.
    pub fn schedule_release(&mut self) -> (generation: usize)
        ensures
            *final(self) == old(self).overtaken(),
            generation == final(self).release_generation,
    {
        self.release_generation = advance(self.release_generation);
        self.release_generation
    }

    /// One step of a release that was scheduled with `generation`. It waits, has
    /// the browser put to rest, waits again, and then hands memory back, unless
    /// something overtook it.
    pub fn release_step(&self, generation: usize, event: ReleaseEvent) -> (action: ReleaseAction)
        ensures
            action == self.release_call(generation, event),
    {
        match event {
            ReleaseEvent::Scheduled => ReleaseAction::WaitHidden { millis: HIDE_RELEASE_DELAY_MS },
            ReleaseEvent::HideDelayElapsed => ReleaseAction::RequestSuspend { generation },
            ReleaseEvent::SuspendAnswered { requested } => {
                if !requested {
                    return ReleaseAction::Stop;
                }
                ReleaseAction::WaitSettled { millis: SUSPEND_SETTLE_DELAY_MS }
            },
            ReleaseEvent::SettleDelayElapsed => {
                if self.release_generation != generation {
                    return ReleaseAction::Stop;
                }
                ReleaseAction::Trim
            },
        }
    }

    /// One step of asking the thread of the browser to put it to rest, on behalf
    /// of the release with `generation`. The answer is whether it was asked.
    pub fn request_suspend(&self, generation: usize, event: RequestEvent) -> (action: RequestAction)
        ensures
            action == self.request_call(generation, event),
    {
        match event {
            RequestEvent::Requested => {
                if self.release_generation != generation {
                    return RequestAction::Answer { requested: false };
                }
                let hwnd: usize = self.main_hwnd;
                let message: u32 = self.release_msg;
                if hwnd == 0 || message == 0 {
                    return RequestAction::Answer { requested: false };
                }
                RequestAction::AskVisible { hwnd, message }
            },
            RequestEvent::VisibilityRead { hwnd, message, visible } => {
                if visible {
                    return RequestAction::Answer { requested: false };
                }
                RequestAction::Post { hwnd, message, wparam: generation }
            },
            RequestEvent::Posted => RequestAction::Answer { requested: true },
        }
    }

    /// One step of putting the browser to rest. It accepts that only while its
    /// controller is invisible, and hiding the window does not make it so.
    pub fn suspend_webview(&mut self, event: SuspendEvent) -> (action: SuspendAction)
        ensures
            (*final(self), action) == old(self).suspend_next(event),
    {
        match event {
            SuspendEvent::Requested { generation } => {
                if self.release_generation != generation {
                    return SuspendAction::Finished;
                }
                if self.main_hwnd == 0 {
                    return SuspendAction::Finished;
                }
                SuspendAction::AskVisible { hwnd: self.main_hwnd }
            },
            SuspendEvent::VisibilityRead { visible } => {
                if visible {
                    return SuspendAction::Finished;
                }
                match self.controller() {
                    Some(controller) => SuspendAction::Hide { controller },
                    None => SuspendAction::Finished,
                }
            },
            SuspendEvent::ControllerHidden { accepted } => {
                if !accepted {
                    return SuspendAction::Finished;
                }
                self.is_released = true;
                match self.core_webview() {
                    Some(core) => SuspendAction::TrySuspend { core },
                    None => SuspendAction::Finished,
                }
            },
        }
    }

    /// One step of waking the browser up. Pending releases are forgotten in any
    /// case.
    pub fn restore_webview(&mut self, event: RestoreEvent) -> (action: RestoreAction)
        ensures
            (*final(self), action) == old(self).restore_next(event),
    {
        match event {
            RestoreEvent::Requested => {
                self.release_generation = advance(self.release_generation);
                let was_released: bool = self.is_released;
                self.is_released = false;
                if !was_released {
                    return RestoreAction::Finished;
                }
                match self.core_webview() {
                    Some(core) => RestoreAction::Resume { core },
                    None => self.show_controller(),
                }
            },
            RestoreEvent::Resumed => self.show_controller(),
        }
    }

    fn show_controller(&self) -> (action: RestoreAction)
        ensures
            action == self.show_call(),
    {
        match self.controller() {
            Some(controller) => RestoreAction::Show { controller },
            None => RestoreAction::Finished,
        }
    }

    /// One step of letting go of the window `hwnd` and its browser.
    pub fn teardown(&mut self, hwnd: usize, event: TeardownEvent) -> (action: TeardownAction)
        ensures
            (*final(self), action) == old(self).teardown_next(hwnd, event),
    {
        match event {
            TeardownEvent::Requested => {
                self.release_generation = advance(self.release_generation);
                self.main_hwnd = 0;
                self.is_released = false;
                let core = self.core_webview();
                self.core_ptr = 0;
                match core {
                    Some(core) => TeardownAction::ReleaseCore { core },
                    None => self.drop_controller(hwnd),
                }
            },
            TeardownEvent::CoreReleased => self.drop_controller(hwnd),
            TeardownEvent::ControllerReleased => TeardownAction::RemoveSubclass { hwnd, id: SUBCLASS_ID },
        }
    }

    fn drop_controller(&mut self, hwnd: usize) -> (action: TeardownAction)
        ensures
            (*final(self), action) == old(self).drop_controller_next(hwnd),
    {
        let controller = self.controller();
        self.controller_ptr = 0;
        match controller {
            Some(controller) => TeardownAction::ReleaseController { controller },
            None => TeardownAction::RemoveSubclass { hwnd, id: SUBCLASS_ID },
        }
    }

    /// The controller of the browser, where it is known.
    pub fn controller(&self) -> (controller: Option<usize>)
        ensures
            controller == present(self.controller_ptr),
    {
        if self.controller_ptr == 0 {
            return None;
        }
        Some(self.controller_ptr)
    }

    /// The core of the browser, where it is known and can be suspended.
    pub fn core_webview(&self) -> (core: Option<usize>)
        ensures
            core == present(self.core_ptr),
    {
        if self.core_ptr == 0 {
            return None;
        }
        Some(self.core_ptr)
    }
}

/// Anything that changes the state.
pub enum Step {
    Install(InstallEvent),
    Message(Message),
    Schedule,
    Restore(RestoreEvent),
    Suspend(SuspendEvent),
    Teardown(usize, TeardownEvent),
}

impl Step {
    /// Whether the step is the beginning of a showing.
    pub open spec fn wakes(self) -> bool {
        match self {
            Step::Message(message) => message.change_spec() is Shown,
            Step::Restore(event) => event is Requested,
            _ => false,
        }
    }

    /// Whether the step is the beginning of the end of the window.
    pub open spec fn tears_down(self) -> bool {
        match self {
            Step::Message(message) => message.change_spec() is Destroyed,
            Step::Teardown(_, event) => event is Requested,
            _ => false,
        }
    }

    /// Whether the step is the beginning of a hiding.
    pub open spec fn schedules(self) -> bool {
        match self {
            Step::Message(message) => message.change_spec() is Hidden,
            Step::Schedule => true,
            _ => false,
        }
    }

    /// Whether the step makes pending releases stale.
    pub open spec fn overtakes(self) -> bool {
        self.wakes() || self.tears_down() || self.schedules()
    }

    /// Whether the step reports that the hooking was refused.
    pub open spec fn refuses_hook(self) -> bool {
        self == Step::Install(InstallEvent::Dispatched { accepted: false })
    }

    /// Whether the step reports the handle of the window to a request.
    pub open spec fn reads_handle(self) -> bool {
        self matches Step::Install(InstallEvent::HandleRead { handle: Some(_) })
    }

    /// Whether the step brings a browser: the work on its thread, with what it got
    /// hold of.
    pub open spec fn brings_browser(self) -> bool {
        self matches Step::Install(InstallEvent::WebviewReached { .. })
    }

    /// Whether the step lets go of the core or the controller of the browser.
    pub open spec fn drops_browser(self) -> bool {
        self.tears_down() || (self matches Step::Teardown(_, TeardownEvent::CoreReleased))
    }

    /// Whether the step reports that the controller took being hidden.
    pub open spec fn puts_to_rest(self) -> bool {
        self == Step::Suspend(SuspendEvent::ControllerHidden { accepted: true })
    }
}

impl IdleMemory {
    /// The state after one step.
    pub open spec fn after_step(self, step: Step) -> Self {
        match step {
            Step::Install(event) => self.install_next(event).0,
            Step::Message(message) => self.message_next(message).0,
            Step::Schedule => self.overtaken(),
            Step::Restore(event) => self.restore_next(event).0,
            Step::Suspend(event) => self.suspend_next(event).0,
            Step::Teardown(hwnd, event) => self.teardown_next(hwnd, event).0,
        }
    }

    /// The state after a number of steps, in whatever order the threads made them.
    pub open spec fn after_steps(self, steps: Seq<Step>) -> Self
        decreases steps.len(),
    {
        if steps.len() == 0 {
            self
        } else {
            self.after_steps(steps.drop_last()).after_step(steps.last())
        }
    }

    /// How many of the steps hook the window, as seen by the registration that
    /// comes with it.
    pub open spec fn hookings(self, steps: Seq<Step>) -> nat
        decreases steps.len(),
    {
        if steps.len() == 0 {
            0
        } else {
            let before = steps.drop_last();
            let hooks = match steps.last() {
                Step::Install(event) => self.after_steps(before).install_next(
                    event,
                ).1 is RegisterMessage,
                _ => false,
            };
            self.hookings(before) + if hooks {
                1nat
            } else {
                0nat
            }
        }
    }
}

/// How many of the steps make pending releases stale.
pub open spec fn overtakings(steps: Seq<Step>) -> nat
    decreases steps.len(),
{
    if steps.len() == 0 {
        0
    } else {
        overtakings(steps.drop_last()) + if steps.last().overtakes() {
            1nat
        } else {
            0nat
        }
    }
}

/// Once the hook is in place, asking for it again does nothing: not at the start,
/// and not for a request that was overtaken while it looked for the window.
pub proof fn law_install_is_idempotent(state: IdleMemory, handle: Option<usize>)
    requires
        state.hook_installed,
    ensures
        state.install_next(InstallEvent::Requested) == (state, InstallAction::Finished),
        state.install_next(InstallEvent::HandleRead { handle }) == (state, InstallAction::Finished),
{
}

/// However many requests are under way, and whatever else happens, the window is
/// hooked at most once, as long as the thread of the browser refuses none: exactly
/// once where the hook was not in place and some request read the handle of the
/// window, and otherwise never. Once in place the hook stays, even when the window
/// is destroyed.
pub proof fn law_hooked_at_most_once(state: IdleMemory, steps: Seq<Step>)
    requires
        forall|i: int| 0 <= i < steps.len() ==> !(#[trigger] steps[i]).refuses_hook(),
    ensures
        state.hookings(steps) <= 1,
        state.hookings(steps) == 1 <==> !state.hook_installed && exists|i: int|
            0 <= i < steps.len() && (#[trigger] steps[i]).reads_handle(),
        state.after_steps(steps).hook_installed <==> state.hook_installed || state.hookings(steps)
            == 1,
    decreases steps.len(),
{
    if steps.len() > 0 {
        let before = steps.drop_last();
        let last = steps.last();
        assert forall|i: int| 0 <= i < before.len() implies !(
        #[trigger] before[i]).refuses_hook() by {
            assert(before[i] == steps[i]);
        }
        law_hooked_at_most_once(state, before);
        assert(steps[steps.len() - 1] == last);
        assert(!last.refuses_hook());
        let read_before = exists|i: int|
            0 <= i < before.len() && (#[trigger] before[i]).reads_handle();
        let read = exists|i: int| 0 <= i < steps.len() && (#[trigger] steps[i]).reads_handle();
        assert(read <==> read_before || last.reads_handle()) by {
            if read_before {
                let i = choose|i: int|
                    0 <= i < before.len() && (#[trigger] before[i]).reads_handle();
                assert(steps[i].reads_handle());
            }
            if read {
                let i = choose|i: int| 0 <= i < steps.len() && (#[trigger] steps[i]).reads_handle();
                if i < before.len() {
                    assert(before[i].reads_handle());
                }
            }
        }
    }
}

/// Where no request reads the handle of the window, the window is not hooked.
pub proof fn law_no_handle_no_hooking(state: IdleMemory, steps: Seq<Step>)
    requires
        forall|i: int| 0 <= i < steps.len() ==> !(#[trigger] steps[i]).reads_handle(),
    ensures
        state.hookings(steps) == 0,
    decreases steps.len(),
{
    if steps.len() > 0 {
        let before = steps.drop_last();
        assert forall|i: int| 0 <= i < before.len() implies !(
        #[trigger] before[i]).reads_handle() by {
            assert(before[i] == steps[i]);
        }
        law_no_handle_no_hooking(state, before);
        assert(!steps[steps.len() - 1].reads_handle());
    }
}

/// A window that is gone stays gone until a window is hooked anew.
pub proof fn law_window_stays_gone(state: IdleMemory, steps: Seq<Step>)
    requires
        state.main_hwnd == 0,
        state.hookings(steps) == 0,
    ensures
        state.after_steps(steps).main_hwnd == 0,
    decreases steps.len(),
{
    if steps.len() > 0 {
        law_window_stays_gone(state, steps.drop_last());
    }
}

/// Only a refusal of the thread of the browser undoes the hook.
pub proof fn law_only_refusal_undoes_hook(state: IdleMemory, step: Step)
    requires
        state.hook_installed,
    ensures
        state.after_step(step).hook_installed <==> !step.refuses_hook(),
{
}

/// Whether `event` is an answer to the call `action`. The work that is handed to the
/// thread of the browser is a step of its own there.
pub open spec fn answers_install(action: InstallAction, event: InstallEvent) -> bool {
    match action {
        InstallAction::FindWindow { .. } => event is WindowLookedUp,
        InstallAction::ReadHandle => event is HandleRead,
        InstallAction::RegisterMessage { .. } => event is MessageRegistered,
        InstallAction::RunOnWebviewThread => event is Dispatched,
        InstallAction::Subclass { .. } | InstallAction::Finished => false,
    }
}

/// Whether the events belong to one request, from its start on: each answers the
/// call that followed the one before it. Each stands with the state at its time,
/// which anything may have changed in between.
pub open spec fn is_install_run(run: Seq<(IdleMemory, InstallEvent)>) -> bool {
    &&& run.len() > 0
    &&& run[0].1 is Requested
    &&& forall|i: int|
        0 <= i < run.len() - 1 ==> answers_install(
            (#[trigger] run[i]).0.install_next(run[i].1).1,
            run[i + 1].1,
        )
}

/// Whether nothing but the request itself changed whether the hook is in place.
pub open spec fn hook_untouched(run: Seq<(IdleMemory, InstallEvent)>) -> bool {
    forall|i: int|
        0 <= i < run.len() - 1 ==> run[i + 1].0.hook_installed == (#[trigger] run[i]).0.install_next(
            run[i].1,
        ).0.hook_installed
}

/// Whether the window was found, its handle was read and the thread of the browser
/// took the work, in the course of one request.
pub open spec fn went_through(run: Seq<(IdleMemory, InstallEvent)>) -> bool {
    &&& run.len() == 5
    &&& run[1].1 == (InstallEvent::WindowLookedUp { found: true })
    &&& run[2].1 is HandleRead
    &&& run[2].1->handle is Some
    &&& run[4].1 == (InstallEvent::Dispatched { accepted: true })
}

/// A request that has come to its end looked for the main window unless the hook was
/// in place, and read the handle where it found the window. Where it got the handle
/// and no other request was faster, it recorded the handle, registered the message
/// that asks for a suspension, recorded it, and handed the hooking over.
pub proof fn law_install_request_runs(run: Seq<(IdleMemory, InstallEvent)>)
    requires
        is_install_run(run),
        run.last().0.install_next(run.last().1).1 is Finished,
    ensures
        run.len() <= 3 || run.len() == 5,
        run.len() >= 2 <==> !run[0].0.hook_installed,
        run.len() >= 2 ==> run[0].0.install_next(run[0].1).1 == (InstallAction::FindWindow {
            label: MAIN_WINDOW_LABEL,
        }) && run[1].1 is WindowLookedUp,
        run.len() >= 3 <==> run.len() >= 2 && run[1].1->found,
        run.len() >= 3 ==> run[1].0.install_next(run[1].1).1 is ReadHandle && run[2].1 is HandleRead,
        run.len() == 5 <==> run.len() >= 3 && run[2].1->handle is Some && !run[2].0.hook_installed,
        run.len() == 5 ==> {
            let hwnd = run[2].1->handle->0;
            &&& run[2].0.install_next(run[2].1) == (
                IdleMemory { hook_installed: true, main_hwnd: hwnd, ..run[2].0 },
                InstallAction::RegisterMessage { name: RELEASE_MESSAGE_NAME },
            )
            &&& run[3].1 is MessageRegistered
            &&& run[3].0.install_next(run[3].1) == (
                IdleMemory { release_msg: run[3].1->message, ..run[3].0 },
                InstallAction::RunOnWebviewThread,
            )
            &&& run[4].1 is Dispatched
        },
{
    if run.len() > 1 {
        assert(answers_install(run[0].0.install_next(run[0].1).1, run[1].1));
        if run.len() > 2 {
            assert(answers_install(run[1].0.install_next(run[1].1).1, run[2].1));
            if run.len() > 3 {
                assert(answers_install(run[2].0.install_next(run[2].1).1, run[3].1));
                if run.len() > 4 {
                    assert(answers_install(run[3].0.install_next(run[3].1).1, run[4].1));
                    if run.len() > 5 {
                        assert(answers_install(run[4].0.install_next(run[4].1).1, run[5].1));
                    }
                }
            }
        }
    }
}

/// Where nothing else touched the hook meanwhile, it is in place after a request
/// exactly where it was before, or where the window was found, its handle was read
/// and the thread of the browser took the work.
pub proof fn law_install_request_settles_hook(run: Seq<(IdleMemory, InstallEvent)>)
    requires
        is_install_run(run),
        hook_untouched(run),
        run.last().0.install_next(run.last().1).1 is Finished,
    ensures
        run.last().0.install_next(run.last().1).0.hook_installed <==> run[0].0.hook_installed
            || went_through(run),
{
    law_install_request_runs(run);
    if run.len() > 1 {
        assert(run[1].0.hook_installed == run[0].0.install_next(run[0].1).0.hook_installed);
        if run.len() > 2 {
            assert(run[2].0.hook_installed == run[1].0.install_next(run[1].1).0.hook_installed);
            if run.len() > 3 {
                assert(run[3].0.hook_installed == run[2].0.install_next(run[2].1).0.hook_installed);
                assert(run[4].0.hook_installed == run[3].0.install_next(run[3].1).0.hook_installed);
            }
        }
    }
}

/// A refusal of the thread of the browser makes room for another attempt.
pub proof fn law_refused_hook_can_be_retried(state: IdleMemory)
    ensures
        state.install_next(InstallEvent::Dispatched { accepted: false }).0.install_next(
            InstallEvent::Requested,
        ).1 is FindWindow,
{
}

/// The generation counts the showings, hidings and destructions, and nothing else.
pub proof fn law_generation_counts_changes(state: IdleMemory, steps: Seq<Step>)
    ensures
        state.after_steps(steps).release_generation == crate::generation::advanced(
            state.release_generation,
            overtakings(steps),
        ),
        overtakings(steps) <= steps.len(),
    decreases steps.len(),
{
    if steps.len() == 0 {
        crate::generation::law_advances_add_up(state.release_generation, 0, 0);
    } else {
        let before = steps.drop_last();
        law_generation_counts_changes(state, before);
        crate::generation::law_advances_add_up(state.release_generation, overtakings(before), 1);
    }
}

/// Any showing, hiding or destruction counts.
pub proof fn law_each_change_counts(steps: Seq<Step>, i: int)
    requires
        0 <= i < steps.len(),
        steps[i].overtakes(),
    ensures
        overtakings(steps) > 0,
    decreases steps.len(),
{
    if i < steps.len() - 1 {
        assert(steps.drop_last()[i] == steps[i]);
        law_each_change_counts(steps.drop_last(), i);
    }
}

/// A pending release comes to nothing at each of its checks once the window was
/// shown, hidden anew or destroyed: no suspension is asked for, one that was asked
/// for is not carried out, and no memory is handed back. Only whole turns of the
/// generation counter are left out.
pub proof fn law_overtaken_release_stops(state: IdleMemory, steps: Seq<Step>)
    requires
        !crate::generation::comes_round(overtakings(steps)),
    ensures
        ({
            let generation = state.release_generation;
            let later = state.after_steps(steps);
            &&& later.request_call(generation, RequestEvent::Requested)
                == (RequestAction::Answer { requested: false })
            &&& later.suspend_next(SuspendEvent::Requested { generation }) == (
                later,
                SuspendAction::Finished,
            )
            &&& later.release_call(generation, ReleaseEvent::SettleDelayElapsed) is Stop
        }),
{
    law_generation_counts_changes(state, steps);
    crate::generation::law_overtaken_generation_differs(
        state.release_generation,
        overtakings(steps),
    );
}

/// A release that nothing overtook goes on: its last check hands memory back.
pub proof fn law_undisturbed_release_trims(state: IdleMemory, steps: Seq<Step>)
    requires
        overtakings(steps) == 0,
    ensures
        state.after_steps(steps).release_call(
            state.release_generation,
            ReleaseEvent::SettleDelayElapsed,
        ) is Trim,
{
    law_generation_counts_changes(state, steps);
    crate::generation::law_advances_add_up(state.release_generation, 0, 0);
}

/// The browser counts as put to rest only once its controller took being hidden,
/// and once it counts so it does until the window is shown or destroyed.
pub proof fn law_rest_begins_and_lasts(state: IdleMemory, step: Step)
    ensures
        !state.is_released && state.after_step(step).is_released ==> step == Step::Suspend(
            SuspendEvent::ControllerHidden { accepted: true },
        ),
        state.is_released && !step.wakes() && !step.tears_down() ==> state.after_step(
            step,
        ).is_released,
        step.wakes() || step.tears_down() ==> !state.after_step(step).is_released,
{
}

/// A showing wakes a browser that was put to rest: its core is resumed, and then
/// its controller is shown, as far as they are known.
pub proof fn law_showing_wakes_browser(state: IdleMemory, message: Message)
    requires
        state.is_released,
        message.change_spec() is Shown,
    ensures
        ({
            let (next, outcome) = state.message_next(message);
            let show = match present(state.controller_ptr) {
                Some(controller) => RestoreAction::Show { controller },
                None => RestoreAction::Finished,
            };
            &&& match present(state.core_ptr) {
                Some(core) => {
                    &&& outcome.reaction == Reaction::Restore(RestoreAction::Resume { core })
                    &&& next.restore_next(RestoreEvent::Resumed) == (next, show)
                },
                None => outcome.reaction == Reaction::Restore(show),
            }
        }),
{
}

/// A browser at rest stays so over any steps that neither show nor destroy the
/// window, and an awake one stays awake until its controller took being hidden.
pub proof fn law_rest_lasts(state: IdleMemory, steps: Seq<Step>)
    ensures
        state.is_released && (forall|i: int|
            0 <= i < steps.len() ==> !(#[trigger] steps[i]).wakes() && !steps[i].tears_down())
            ==> state.after_steps(steps).is_released,
        !state.is_released && (forall|i: int|
            0 <= i < steps.len() ==> !(#[trigger] steps[i]).puts_to_rest()) ==> !state.after_steps(
            steps,
        ).is_released,
    decreases steps.len(),
{
    if steps.len() > 0 {
        let before = steps.drop_last();
        assert forall|i: int| 0 <= i < before.len() implies before[i] == steps[i] by {}
        law_rest_lasts(state, before);
        assert(steps[steps.len() - 1] == steps.last());
        law_rest_begins_and_lasts(state.after_steps(before), steps.last());
    }
}

/// The core and the controller stay the same over any steps that neither bring a
/// browser nor let go of one.
pub proof fn law_browser_stays_the_same(state: IdleMemory, steps: Seq<Step>)
    requires
        forall|i: int|
            0 <= i < steps.len() ==> !(#[trigger] steps[i]).brings_browser()
                && !steps[i].drops_browser(),
    ensures
        state.after_steps(steps).core_ptr == state.core_ptr,
        state.after_steps(steps).controller_ptr == state.controller_ptr,
    decreases steps.len(),
{
    if steps.len() > 0 {
        let before = steps.drop_last();
        assert forall|i: int| 0 <= i < before.len() implies !(#[trigger] before[i]).brings_browser()
            && !before[i].drops_browser() by {
            assert(before[i] == steps[i]);
        }
        law_browser_stays_the_same(state, before);
        assert(steps[steps.len() - 1] == steps.last());
    }
}

/// What was put to rest is what is woken. The controller that was hidden, at the
/// state `found_hidden`, is the one that the next showing makes visible again, and
/// the core that was asked to suspend is the one that it resumes first. Any steps
/// may come before the controller took being hidden (`hiding`), while the browser
/// rests (`resting`) and while its core is resumed (`resuming`), as long as they
/// neither bring a browser nor let go of one, and the showing is the first one.
pub proof fn law_what_rests_is_what_wakes(
    found_hidden: IdleMemory,
    hiding: Seq<Step>,
    resting: Seq<Step>,
    message: Message,
    resuming: Seq<Step>,
)
    requires
        forall|i: int|
            0 <= i < hiding.len() ==> !(#[trigger] hiding[i]).brings_browser()
                && !hiding[i].drops_browser(),
        forall|i: int|
            0 <= i < resting.len() ==> !(#[trigger] resting[i]).brings_browser()
                && !resting[i].drops_browser() && !resting[i].wakes(),
        forall|i: int|
            0 <= i < resuming.len() ==> !(#[trigger] resuming[i]).brings_browser()
                && !resuming[i].drops_browser(),
        found_hidden.suspend_next(SuspendEvent::VisibilityRead { visible: false }).1 is Hide,
        message.change_spec() is Shown,
    ensures
        ({
            let hidden = found_hidden.suspend_next(
                SuspendEvent::VisibilityRead { visible: false },
            ).1->Hide_controller;
            let (asleep, call) = found_hidden.after_steps(hiding).suspend_next(
                SuspendEvent::ControllerHidden { accepted: true },
            );
            let (woken, outcome) = asleep.after_steps(resting).message_next(message);
            let show = RestoreAction::Show { controller: hidden };
            match call {
                SuspendAction::TrySuspend { core } => {
                    &&& outcome.reaction == Reaction::Restore(RestoreAction::Resume { core })
                    &&& woken.after_steps(resuming).restore_next(RestoreEvent::Resumed).1 == show
                },
                _ => call is Finished && outcome.reaction == Reaction::Restore(show),
            }
        }),
{
    let accepted = found_hidden.after_steps(hiding);
    let asleep = accepted.suspend_next(SuspendEvent::ControllerHidden { accepted: true }).0;
    let shown = asleep.after_steps(resting);
    let woken = shown.message_next(message).0;
    law_browser_stays_the_same(found_hidden, hiding);
    law_browser_stays_the_same(asleep, resting);
    law_browser_stays_the_same(woken, resuming);
    assert forall|i: int| 0 <= i < resting.len() implies !(#[trigger] resting[i]).wakes()
        && !resting[i].tears_down() by {
        assert(!resting[i].drops_browser());
    }
    law_rest_lasts(asleep, resting);
}

/// A browser that is awake is left alone, so that the second message about one
/// showing wakes nothing.
pub proof fn law_awake_browser_is_left_alone(state: IdleMemory, first: Message, second: Message)
    requires
        first.change_spec() is Shown,
        second.change_spec() is Shown,
    ensures
        !state.is_released ==> state.message_next(first).1.reaction == Reaction::Restore(
            RestoreAction::Finished,
        ),
        state.message_next(first).0.message_next(second).1.reaction == Reaction::Restore(
            RestoreAction::Finished,
        ),
{
}

/// The message that asks for a suspension is kept and answered with 0; every other
/// message is passed on.
pub proof fn law_other_messages_are_passed_on(state: IdleMemory, message: Message)
    ensures
        state.message_next(message).1.answer == if message.change_spec() is Unrelated
            && message.msg == state.release_msg && message.msg != 0 {
            Some(0isize)
        } else {
            None
        },
        state.message_next(message).1.answer is Some <==> state.message_next(
            message,
        ).1.reaction is Suspend,
{
}

/// The message that asks for a suspension is answered without the next window
/// procedure. Every other message is passed on exactly once, after it was handled
/// and with all that it came with, and what the next procedure returned is returned.
pub proof fn law_messages_are_concluded_once(
    state: IdleMemory,
    message: Message,
    run: Seq<ProcEvent>,
)
    requires
        crate::messages::is_proc_run(message, state.message_next(message).1.answer, run),
        message.conclusion(state.message_next(message).1.answer, run.last()) is Return,
    ensures
        crate::messages::proc_calls(message, state.message_next(message).1.answer, run)
            == if message.change_spec() is Unrelated && message.msg == state.release_msg
            && message.msg != 0 {
            seq![ProcAction::Return { result: 0 }]
        } else {
            seq![
                ProcAction::PassOn {
                    hwnd: message.hwnd,
                    msg: message.msg,
                    wparam: message.wparam,
                    lparam: message.lparam,
                },
                ProcAction::Return { result: run[1]->result },
            ]
        },
{
    crate::messages::law_unanswered_message_is_passed_on_once(
        message,
        state.message_next(message).1.answer,
        run,
    );
}

/// Whether `event` is an answer to the call `action`.
pub open spec fn answers_suspend(action: SuspendAction, event: SuspendEvent) -> bool {
    match action {
        SuspendAction::AskVisible { .. } => event is VisibilityRead,
        SuspendAction::Hide { .. } => event is ControllerHidden,
        SuspendAction::TrySuspend { .. } | SuspendAction::Finished => false,
    }
}

/// Whether the events belong to one attempt to put the browser to rest, from its
/// start on. Each stands with the state at its time.
pub open spec fn is_suspend_run(run: Seq<(IdleMemory, SuspendEvent)>) -> bool {
    &&& run.len() > 0
    &&& run[0].1 is Requested
    &&& forall|i: int|
        0 <= i < run.len() - 1 ==> answers_suspend(
            (#[trigger] run[i]).0.suspend_next(run[i].1).1,
            run[i + 1].1,
        )
}

/// The browser is asked to suspend only where the request was not overtaken, the
/// window is there and was found hidden, and the controller took being hidden: it
/// would refuse otherwise.
pub proof fn law_suspended_only_when_hidden(run: Seq<(IdleMemory, SuspendEvent)>)
    requires
        is_suspend_run(run),
        run.last().0.suspend_next(run.last().1).1 is TrySuspend,
    ensures
        run.len() == 3,
        run[0].1 == (SuspendEvent::Requested { generation: run[0].0.release_generation }),
        run[0].0.main_hwnd != 0,
        run[0].0.suspend_next(run[0].1).1 == (SuspendAction::AskVisible {
            hwnd: run[0].0.main_hwnd,
        }),
        run[1].1 == (SuspendEvent::VisibilityRead { visible: false }),
        run[1].0.suspend_next(run[1].1).1 == (SuspendAction::Hide {
            controller: run[1].0.controller_ptr,
        }),
        run[2].1 == (SuspendEvent::ControllerHidden { accepted: true }),
        run[2].0.suspend_next(run[2].1).1 == (SuspendAction::TrySuspend {
            core: run[2].0.core_ptr,
        }),
        run[2].0.suspend_next(run[2].1).0.is_released,
{
    assert(run.len() >= 2);
    assert(answers_suspend(run[0].0.suspend_next(run[0].1).1, run[1].1));
    assert(run.len() >= 3);
    assert(answers_suspend(run[1].0.suspend_next(run[1].1).1, run[2].1));
    if run.len() > 3 {
        assert(answers_suspend(run[2].0.suspend_next(run[2].1).1, run[3].1));
    }
}

/// Whether `event` is an answer to the call `action`.
pub open spec fn answers_request(action: RequestAction, event: RequestEvent) -> bool {
    match action {
        RequestAction::AskVisible { hwnd, message } => {
            &&& event is VisibilityRead
            &&& event->hwnd == hwnd
            &&& event->message == message
        },
        RequestAction::Post { .. } => event is Posted,
        RequestAction::Answer { .. } => false,
    }
}

/// Whether the events belong to one request to put the browser to rest, from its
/// start on. Each stands with the state at its time.
pub open spec fn is_request_run(generation: usize, run: Seq<(IdleMemory, RequestEvent)>) -> bool {
    &&& run.len() > 0
    &&& run[0].1 is Requested
    &&& forall|i: int|
        0 <= i < run.len() - 1 ==> answers_request(
            (#[trigger] run[i]).0.request_call(generation, run[i].1),
            run[i + 1].1,
        )
}

/// A request that has come to its end was made exactly where the release was not
/// overtaken, the window and the message were known, and the window was found
/// hidden. The message was then posted to that window, with the generation.
pub proof fn law_request_posts_iff_hidden(
    generation: usize,
    run: Seq<(IdleMemory, RequestEvent)>,
)
    requires
        is_request_run(generation, run),
        run.last().0.request_call(generation, run.last().1) is Answer,
    ensures
        run.last().0.request_call(generation, run.last().1) == (RequestAction::Answer {
            requested: {
                &&& run[0].0.release_generation == generation
                &&& run[0].0.main_hwnd != 0
                &&& run[0].0.release_msg != 0
                &&& !run[1].1->visible
            },
        }),
        run.last().0.request_call(generation, run.last().1) == (RequestAction::Answer {
            requested: true,
        }) ==> run.len() == 3 && run[1].0.request_call(generation, run[1].1)
            == (RequestAction::Post {
            hwnd: run[0].0.main_hwnd,
            message: run[0].0.release_msg,
            wparam: generation,
        }),
{
    if run.len() >= 2 {
        assert(answers_request(run[0].0.request_call(generation, run[0].1), run[1].1));
        if run.len() >= 3 {
            assert(answers_request(run[1].0.request_call(generation, run[1].1), run[2].1));
            if run.len() > 3 {
                assert(answers_request(run[2].0.request_call(generation, run[2].1), run[3].1));
            }
        }
    }
}

/// Whether `event` is what comes after the call `action`.
pub open spec fn answers_release(action: ReleaseAction, event: ReleaseEvent) -> bool {
    match action {
        ReleaseAction::WaitHidden { .. } => event is HideDelayElapsed,
        ReleaseAction::RequestSuspend { .. } => event is SuspendAnswered,
        ReleaseAction::WaitSettled { .. } => event is SettleDelayElapsed,
        ReleaseAction::Trim | ReleaseAction::Stop => false,
    }
}

/// Whether the events belong to one release, from its scheduling on. Each stands
/// with the state at its time, which anything may have changed in between.
pub open spec fn is_release_run(generation: usize, run: Seq<(IdleMemory, ReleaseEvent)>) -> bool {
    &&& run.len() > 0
    &&& run[0].1 is Scheduled
    &&& forall|i: int|
        0 <= i < run.len() - 1 ==> answers_release(
            (#[trigger] run[i]).0.release_call(generation, run[i].1),
            run[i + 1].1,
        )
}

/// A release that has come to its end waited for the whole delay first, and then
/// requested the suspension. It hands memory back exactly where the suspension was
/// requested, the browser had its time to settle, and nothing overtook the release
/// until then.
pub proof fn law_release_trims_iff_settled(generation: usize, run: Seq<(IdleMemory, ReleaseEvent)>)
    requires
        is_release_run(generation, run),
        ({
            let end = run.last().0.release_call(generation, run.last().1);
            end is Trim || end is Stop
        }),
    ensures
        run.len() >= 3,
        run[0].0.release_call(generation, run[0].1) == (ReleaseAction::WaitHidden {
            millis: HIDE_RELEASE_DELAY_MS,
        }),
        run[1].1 is HideDelayElapsed,
        run[1].0.release_call(generation, run[1].1) == (ReleaseAction::RequestSuspend {
            generation,
        }),
        run[2].1 is SuspendAnswered,
        run.last().0.release_call(generation, run.last().1) is Trim <==> {
            &&& run[2].1->requested
            &&& run.len() == 4
            &&& run[3].0.release_generation == generation
        },
        run[2].1->requested ==> run.len() == 4 && run[3].1 is SettleDelayElapsed
            && run[2].0.release_call(generation, run[2].1) == (ReleaseAction::WaitSettled {
            millis: SUSPEND_SETTLE_DELAY_MS,
        }),
{
    assert(run.len() >= 2);
    assert(answers_release(run[0].0.release_call(generation, run[0].1), run[1].1));
    assert(run.len() >= 3);
    assert(answers_release(run[1].0.release_call(generation, run[1].1), run[2].1));
    if run.len() > 3 {
        assert(answers_release(run[2].0.release_call(generation, run[2].1), run[3].1));
        if run.len() > 4 {
            assert(answers_release(run[3].0.release_call(generation, run[3].1), run[4].1));
        }
    }
}

/// The calls that let go of a window, given what is known of its browser: each
/// object is let go of once, the core before the controller, and the hook last.
pub open spec fn teardown_calls(hwnd: usize, core_ptr: usize, controller_ptr: usize) -> Seq<
    TeardownAction,
> {
    let core = match present(core_ptr) {
        Some(core) => seq![TeardownAction::ReleaseCore { core }],
        None => Seq::empty(),
    };
    let controller = match present(controller_ptr) {
        Some(controller) => seq![TeardownAction::ReleaseController { controller }],
        None => Seq::empty(),
    };
    core + controller + seq![TeardownAction::RemoveSubclass { hwnd, id: SUBCLASS_ID }]
}

/// The state and the calls from a step of letting go on to its end, where nothing
/// else happens in between.
pub open spec fn teardown_rest(state: IdleMemory, hwnd: usize, event: TeardownEvent) -> (
    IdleMemory,
    Seq<TeardownAction>,
)
    decreases
            match event {
                TeardownEvent::Requested => 2int,
                TeardownEvent::CoreReleased => 1int,
                TeardownEvent::ControllerReleased => 0int,
            },
{
    let (next, call) = state.teardown_next(hwnd, event);
    match (event, call) {
        (TeardownEvent::Requested, TeardownAction::ReleaseCore { .. }) => {
            let (end, calls) = teardown_rest(next, hwnd, TeardownEvent::CoreReleased);
            (end, seq![call] + calls)
        },
        (
            TeardownEvent::Requested | TeardownEvent::CoreReleased,
            TeardownAction::ReleaseController { .. },
        ) => {
            let (end, calls) = teardown_rest(next, hwnd, TeardownEvent::ControllerReleased);
            (end, seq![call] + calls)
        },
        _ => (next, seq![call]),
    }
}

/// What was let go of stays let go of until the work on the thread of a browser
/// brings one.
pub proof fn law_browser_stays_let_go(state: IdleMemory, steps: Seq<Step>)
    requires
        state.core_ptr == 0,
        state.controller_ptr == 0,
        forall|i: int| 0 <= i < steps.len() ==> !(#[trigger] steps[i]).brings_browser(),
    ensures
        state.after_steps(steps).core_ptr == 0,
        state.after_steps(steps).controller_ptr == 0,
    decreases steps.len(),
{
    if steps.len() > 0 {
        let before = steps.drop_last();
        assert forall|i: int| 0 <= i < before.len() implies !(
        #[trigger] before[i]).brings_browser() by {
            assert(before[i] == steps[i]);
        }
        law_browser_stays_let_go(state, before);
        assert(!steps[steps.len() - 1].brings_browser());
    }
}

/// Letting go of a window releases its core and its controller once each. Whatever
/// happens after that, letting go of a window again releases nothing, unless the
/// work on the thread of a browser brought one in between.
pub proof fn law_teardown_lets_go_once(
    state: IdleMemory,
    hwnd: usize,
    steps: Seq<Step>,
    again: usize,
)
    requires
        forall|i: int| 0 <= i < steps.len() ==> !(#[trigger] steps[i]).brings_browser(),
    ensures
        ({
            let (end, calls) = teardown_rest(state, hwnd, TeardownEvent::Requested);
            &&& calls == teardown_calls(hwnd, state.core_ptr, state.controller_ptr)
            &&& end.core_ptr == 0 && end.controller_ptr == 0 && end.main_hwnd == 0
            &&& teardown_rest(end.after_steps(steps), again, TeardownEvent::Requested).1 == seq![
                TeardownAction::RemoveSubclass { hwnd: again, id: SUBCLASS_ID },
            ]
        }),
{
    reveal_with_fuel(teardown_rest, 3);
    let (end, calls) = teardown_rest(state, hwnd, TeardownEvent::Requested);
    assert(calls =~= teardown_calls(hwnd, state.core_ptr, state.controller_ptr));
    law_browser_stays_let_go(end, steps);
    assert(teardown_rest(end.after_steps(steps), again, TeardownEvent::Requested).1 =~= seq![
        TeardownAction::RemoveSubclass { hwnd: again, id: SUBCLASS_ID },
    ]);
}

/// From the start of letting go on, and whatever happens then, until a window is
/// hooked anew: no release gets to ask for the browser to be put to rest, whatever
/// its generation, and a message that asks for it begins nothing. A showing wakes
/// nothing either, unless an attempt that was under way still had its controller
/// hidden.
pub proof fn law_torn_down_window_stays_quiet(
    state: IdleMemory,
    hwnd: usize,
    steps: Seq<Step>,
    generation: usize,
)
    requires
        state.teardown_next(hwnd, TeardownEvent::Requested).0.hookings(steps) == 0,
    ensures
        ({
            let left = state.teardown_next(hwnd, TeardownEvent::Requested).0;
            let later = left.after_steps(steps);
            &&& later.request_call(generation, RequestEvent::Requested) == (RequestAction::Answer {
                requested: false,
            })
            &&& later.suspend_next(SuspendEvent::Requested { generation }) == (
                later,
                SuspendAction::Finished,
            )
            &&& (forall|i: int| 0 <= i < steps.len() ==> !(#[trigger] steps[i]).puts_to_rest())
                ==> later.restore_next(RestoreEvent::Requested).1 is Finished
        }),
{
    let left = state.teardown_next(hwnd, TeardownEvent::Requested).0;
    law_window_stays_gone(left, steps);
    law_rest_lasts(left, steps);
}

/// An address stands for an object exactly where it is not 0.
pub proof fn law_only_zero_is_none(ptr: usize)
    ensures
        ptr != 0 ==> present(ptr) == Some(ptr),
        ptr == 0 ==> present(ptr) is None,
{
}

/// Making pending releases stale moves the generation on by one and touches nothing
/// else.
pub proof fn law_overtaking_moves_generation_only(state: IdleMemory)
    ensures
        state.overtaken().release_generation == if state.release_generation == usize::MAX {
            0
        } else {
            state.release_generation + 1
        },
        state.overtaken().hook_installed == state.hook_installed,
        state.overtaken().main_hwnd == state.main_hwnd,
        state.overtaken().controller_ptr == state.controller_ptr,
        state.overtaken().core_ptr == state.core_ptr,
        state.overtaken().release_msg == state.release_msg,
        state.overtaken().is_released == state.is_released,
{
    crate::generation::law_one_advance(state.release_generation);
}

/// A request goes on wherever it can: it looks for the main window where the hook is
/// not in place, reads the handle of a window that was found, registers the message
/// once it recorded a handle while the hook was still not in place, and hands the
/// hooking over once it recorded the message. Everywhere else it ends with nothing
/// changed.
pub proof fn law_request_goes_on(state: IdleMemory, found: bool, hwnd: usize, message: u32)
    ensures
        state.install_next(InstallEvent::Requested).0 == state,
        state.install_next(InstallEvent::Requested).1 == if state.hook_installed {
            InstallAction::Finished
        } else {
            InstallAction::FindWindow { label: MAIN_WINDOW_LABEL }
        },
        state.install_next(InstallEvent::WindowLookedUp { found }).0 == state,
        state.install_next(InstallEvent::WindowLookedUp { found }).1 is ReadHandle <==> found,
        state.install_next(InstallEvent::WindowLookedUp { found }).1 is Finished <==> !found,
        state.install_next(InstallEvent::HandleRead { handle: None }) == (
            state,
            InstallAction::Finished,
        ),
        !state.hook_installed ==> ({
            let (next, action) = state.install_next(InstallEvent::HandleRead { handle: Some(hwnd) });
            &&& action == (InstallAction::RegisterMessage { name: RELEASE_MESSAGE_NAME })
            &&& next.hook_installed
            &&& next.main_hwnd == hwnd
            &&& next.controller_ptr == state.controller_ptr
            &&& next.core_ptr == state.core_ptr
            &&& next.release_msg == state.release_msg
            &&& next.release_generation == state.release_generation
            &&& next.is_released == state.is_released
        }),
        ({
            let (next, action) = state.install_next(InstallEvent::MessageRegistered { message });
            &&& action is RunOnWebviewThread
            &&& next.release_msg == message
            &&& next.hook_installed == state.hook_installed
            &&& next.main_hwnd == state.main_hwnd
            &&& next.controller_ptr == state.controller_ptr
            &&& next.core_ptr == state.core_ptr
            &&& next.release_generation == state.release_generation
            &&& next.is_released == state.is_released
        }),
{
}

/// The reply of the thread of the browser ends the request: a refusal takes the hook
/// back, and nothing else changes.
pub proof fn law_reply_of_webview_thread(state: IdleMemory, accepted: bool)
    ensures
        ({
            let (next, action) = state.install_next(InstallEvent::Dispatched { accepted });
            &&& action is Finished
            &&& next.hook_installed <==> state.hook_installed && accepted
            &&& next.main_hwnd == state.main_hwnd
            &&& next.controller_ptr == state.controller_ptr
            &&& next.core_ptr == state.core_ptr
            &&& next.release_msg == state.release_msg
            &&& next.release_generation == state.release_generation
            &&& next.is_released == state.is_released
        }),
{
}

/// The work on the thread of the browser always hooks the very window whose handle was
/// recorded, and records the controller and, where there is one, the core that it got
/// hold of. Nothing else changes.
pub proof fn law_webview_thread_hooks(state: IdleMemory, core: Option<usize>, controller: usize)
    ensures
        ({
            let (next, action) = state.install_next(
                InstallEvent::WebviewReached { core, controller },
            );
            &&& action == (InstallAction::Subclass { hwnd: state.main_hwnd, id: SUBCLASS_ID })
            &&& next.controller_ptr == controller
            &&& core is Some ==> next.core_ptr == core->0
            &&& core is None ==> next.core_ptr == state.core_ptr
            &&& next.hook_installed == state.hook_installed
            &&& next.main_hwnd == state.main_hwnd
            &&& next.release_msg == state.release_msg
            &&& next.release_generation == state.release_generation
            &&& next.is_released == state.is_released
        }),
{
}

/// A whole installation hooks the window whose handle was read: whatever the handle,
/// the message and the objects of the browser are, they are what is known afterwards.
pub proof fn law_installation_hooks_handle_read(
    state: IdleMemory,
    hwnd: usize,
    message: u32,
    core: usize,
    controller: usize,
)
    requires
        !state.hook_installed,
    ensures
        ({
            let recorded = state.install_next(InstallEvent::HandleRead { handle: Some(hwnd) }).0;
            let registered = recorded.install_next(InstallEvent::MessageRegistered { message }).0;
            let (hooked, action) = registered.install_next(
                InstallEvent::WebviewReached { core: Some(core), controller },
            );
            let end = hooked.install_next(InstallEvent::Dispatched { accepted: true }).0;
            &&& action == (InstallAction::Subclass { hwnd, id: SUBCLASS_ID })
            &&& end == (IdleMemory {
                hook_installed: true,
                main_hwnd: hwnd,
                controller_ptr: controller,
                core_ptr: core,
                release_msg: message,
                release_generation: state.release_generation,
                is_released: state.is_released,
            })
        }),
{
}

/// An attempt to put the browser to rest goes on wherever it can. One that was not
/// overtaken, and whose window is known, asks about that window. Where the window is
/// found hidden and a controller is known, that controller is hidden. Where the
/// controller took that, the browser counts as put to rest, and a core that is known is
/// asked to suspend. Everywhere else the attempt ends, and nothing else changes.
pub proof fn law_suspension_goes_on(
    asked: IdleMemory,
    generation: usize,
    read: IdleMemory,
    visible: bool,
    told: IdleMemory,
    accepted: bool,
)
    ensures
        asked.suspend_next(SuspendEvent::Requested { generation }).0 == asked,
        asked.release_generation == generation && asked.main_hwnd != 0 ==> asked.suspend_next(
            SuspendEvent::Requested { generation },
        ).1 == (SuspendAction::AskVisible { hwnd: asked.main_hwnd }),
        asked.release_generation != generation || asked.main_hwnd == 0 ==> asked.suspend_next(
            SuspendEvent::Requested { generation },
        ).1 is Finished,
        read.suspend_next(SuspendEvent::VisibilityRead { visible }).0 == read,
        !visible && read.controller_ptr != 0 ==> read.suspend_next(
            SuspendEvent::VisibilityRead { visible },
        ).1 == (SuspendAction::Hide { controller: read.controller_ptr }),
        visible || read.controller_ptr == 0 ==> read.suspend_next(
            SuspendEvent::VisibilityRead { visible },
        ).1 is Finished,
        ({
            let (next, action) = told.suspend_next(SuspendEvent::ControllerHidden { accepted });
            &&& accepted && told.core_ptr != 0 ==> action == (SuspendAction::TrySuspend {
                core: told.core_ptr,
            })
            &&& !accepted || told.core_ptr == 0 ==> action is Finished
            &&& next.is_released <==> told.is_released || accepted
            &&& next.hook_installed == told.hook_installed
            &&& next.main_hwnd == told.main_hwnd
            &&& next.controller_ptr == told.controller_ptr
            &&& next.core_ptr == told.core_ptr
            &&& next.release_msg == told.release_msg
            &&& next.release_generation == told.release_generation
        }),
{
}

/// A showing always moves the generation on and counts the browser as awake. One that
/// was at rest is woken: its core is resumed where one is known, and its controller is
/// shown after that, or at once without a core, where one is known. One that was awake
/// is left alone. Nothing else changes.
pub proof fn law_waking_goes_on(state: IdleMemory, resumed: IdleMemory)
    ensures
        ({
            let (next, action) = state.restore_next(RestoreEvent::Requested);
            &&& state.is_released && state.core_ptr != 0 ==> action == (RestoreAction::Resume {
                core: state.core_ptr,
            })
            &&& state.is_released && state.core_ptr == 0 && state.controller_ptr != 0 ==> action
                == (RestoreAction::Show { controller: state.controller_ptr })
            &&& !state.is_released || (state.core_ptr == 0 && state.controller_ptr == 0)
                ==> action is Finished
            &&& !next.is_released
            &&& next.release_generation == crate::generation::advanced(state.release_generation, 1)
            &&& next.hook_installed == state.hook_installed
            &&& next.main_hwnd == state.main_hwnd
            &&& next.controller_ptr == state.controller_ptr
            &&& next.core_ptr == state.core_ptr
            &&& next.release_msg == state.release_msg
        }),
        resumed.restore_next(RestoreEvent::Resumed).0 == resumed,
        resumed.controller_ptr != 0 ==> resumed.restore_next(RestoreEvent::Resumed).1 == (
        RestoreAction::Show { controller: resumed.controller_ptr }),
        resumed.controller_ptr == 0 ==> resumed.restore_next(RestoreEvent::Resumed).1 is Finished,
{
}

/// Letting go goes on to its end. It forgets the window, counts the browser as awake
/// and moves the generation on. A core that is known is released and forgotten first, a
/// controller that is known is released and forgotten after that, or at once without a
/// core, and the window is unhooked last. Nothing else changes.
pub proof fn law_letting_go_goes_on(
    state: IdleMemory,
    released: IdleMemory,
    last: IdleMemory,
    hwnd: usize,
)
    ensures
        ({
            let (next, action) = state.teardown_next(hwnd, TeardownEvent::Requested);
            &&& state.core_ptr != 0 ==> action == (TeardownAction::ReleaseCore {
                core: state.core_ptr,
            }) && next.controller_ptr == state.controller_ptr
            &&& state.core_ptr == 0 && state.controller_ptr != 0 ==> action == (
            TeardownAction::ReleaseController { controller: state.controller_ptr })
                && next.controller_ptr == 0
            &&& state.core_ptr == 0 && state.controller_ptr == 0 ==> action == (
            TeardownAction::RemoveSubclass { hwnd, id: SUBCLASS_ID }) && next.controller_ptr == 0
            &&& next.core_ptr == 0
            &&& next.main_hwnd == 0
            &&& !next.is_released
            &&& next.release_generation == crate::generation::advanced(state.release_generation, 1)
            &&& next.hook_installed == state.hook_installed
            &&& next.release_msg == state.release_msg
        }),
        ({
            let (next, action) = released.teardown_next(hwnd, TeardownEvent::CoreReleased);
            &&& released.controller_ptr != 0 ==> action == (TeardownAction::ReleaseController {
                controller: released.controller_ptr,
            })
            &&& released.controller_ptr == 0 ==> action == (TeardownAction::RemoveSubclass {
                hwnd,
                id: SUBCLASS_ID,
            })
            &&& next.controller_ptr == 0
            &&& next.core_ptr == released.core_ptr
            &&& next.main_hwnd == released.main_hwnd
            &&& next.is_released == released.is_released
            &&& next.release_generation == released.release_generation
            &&& next.hook_installed == released.hook_installed
            &&& next.release_msg == released.release_msg
        }),
        last.teardown_next(hwnd, TeardownEvent::ControllerReleased) == (
            last,
            TeardownAction::RemoveSubclass { hwnd, id: SUBCLASS_ID },
        ),
{
}

/// A request to put the browser to rest goes on wherever it can. One whose release was
/// not overtaken, and whose window and message are known, asks about that window. Where
/// that window was found hidden, that message is posted to it with the generation, and
/// then the suspension was requested. Everywhere else it was not.
pub proof fn law_suspend_request_goes_on(
    state: IdleMemory,
    generation: usize,
    hwnd: usize,
    message: u32,
)
    ensures
        state.release_generation == generation && state.main_hwnd != 0 && state.release_msg != 0
            ==> state.request_call(generation, RequestEvent::Requested) == (
        RequestAction::AskVisible { hwnd: state.main_hwnd, message: state.release_msg }),
        state.release_generation != generation || state.main_hwnd == 0 || state.release_msg == 0
            ==> state.request_call(generation, RequestEvent::Requested) == (RequestAction::Answer {
            requested: false,
        }),
        state.request_call(
            generation,
            RequestEvent::VisibilityRead { hwnd, message, visible: false },
        ) == (RequestAction::Post { hwnd, message, wparam: generation }),
        state.request_call(
            generation,
            RequestEvent::VisibilityRead { hwnd, message, visible: true },
        ) == (RequestAction::Answer { requested: false }),
        state.request_call(generation, RequestEvent::Posted) == (RequestAction::Answer {
            requested: true,
        }),
{
}

/// A release goes on wherever it can: it waits for the whole delay, requests the
/// suspension with its own generation, lets the browser settle where the suspension was
/// requested, and hands memory back where nothing overtook it then. Where the
/// suspension was not requested, or the release was overtaken, it stops.
pub proof fn law_release_goes_on(state: IdleMemory, generation: usize)
    ensures
        state.release_call(generation, ReleaseEvent::Scheduled) == (ReleaseAction::WaitHidden {
            millis: HIDE_RELEASE_DELAY_MS,
        }),
        state.release_call(generation, ReleaseEvent::HideDelayElapsed) == (
        ReleaseAction::RequestSuspend { generation }),
        state.release_call(generation, ReleaseEvent::SuspendAnswered { requested: true }) == (
        ReleaseAction::WaitSettled { millis: SUSPEND_SETTLE_DELAY_MS }),
        state.release_call(generation, ReleaseEvent::SuspendAnswered { requested: false }) is Stop,
        state.release_call(generation, ReleaseEvent::SettleDelayElapsed) is Trim
            <==> state.release_generation == generation,
        state.release_call(generation, ReleaseEvent::SettleDelayElapsed) is Stop
            <==> state.release_generation != generation,
{
}

/// Every message that announces a hiding calls for a release, and that release goes by
/// the generation that is current after the message. Only the generation changes.
pub proof fn law_hiding_is_acted_on(state: IdleMemory, message: Message)
    requires
        message.change_spec() is Hidden,
    ensures
        ({
            let (next, outcome) = state.message_next(message);
            &&& outcome.reaction == (Reaction::ScheduleRelease {
                generation: next.release_generation,
            })
            &&& outcome.answer is None
            &&& next.release_generation == crate::generation::advanced(state.release_generation, 1)
            &&& next.hook_installed == state.hook_installed
            &&& next.main_hwnd == state.main_hwnd
            &&& next.controller_ptr == state.controller_ptr
            &&& next.core_ptr == state.core_ptr
            &&& next.release_msg == state.release_msg
            &&& next.is_released == state.is_released
        }),
{
}

/// Each other message has the effect of what it says: a showing begins to wake the
/// browser, the end of the window begins to let go of it, and the registered message,
/// which no other message can be mistaken for, begins to put the browser to rest by the
/// generation that it carries. A message that says none of these has no effect.
pub proof fn law_messages_have_their_effect(state: IdleMemory, message: Message)
    ensures
        message.change_spec() is Shown ==> state.message_next(message) == (
            state.restore_next(RestoreEvent::Requested).0,
            Outcome {
                reaction: Reaction::Restore(state.restore_next(RestoreEvent::Requested).1),
                answer: None,
            },
        ),
        message.change_spec() is Destroyed ==> state.message_next(message) == (
            state.teardown_next(message.hwnd, TeardownEvent::Requested).0,
            Outcome {
                reaction: Reaction::Teardown(
                    state.teardown_next(message.hwnd, TeardownEvent::Requested).1,
                ),
                answer: None,
            },
        ),
        message.change_spec() is Unrelated && message.msg == state.release_msg && message.msg != 0
            ==> state.message_next(message) == (
            state,
            Outcome {
                reaction: Reaction::Suspend(
                    state.suspend_next(SuspendEvent::Requested { generation: message.wparam }).1,
                ),
                answer: Some(0),
            },
        ),
        message.change_spec() is Unchanged || (message.change_spec() is Unrelated && (message.msg
            != state.release_msg || message.msg == 0)) ==> state.message_next(message) == (
            state,
            Outcome { reaction: Reaction::Nothing, answer: None },
        ),
{
}

/// A window that is hidden and left alone has its browser suspended and its memory
/// handed back: the release that its hiding calls for asks about the window, posts the
/// message with its generation, and that message has the controller hidden and the core
/// asked to suspend. Whatever the generation is, a showing after that wakes the same
/// core and controller.
pub proof fn law_hiding_suspends_and_showing_wakes(
    state: IdleMemory,
    hide: Message,
    posted: Message,
    show: Message,
)
    requires
        state.main_hwnd != 0,
        state.controller_ptr != 0,
        state.core_ptr != 0,
        state.release_msg != 0,
        hide.change_spec() is Hidden,
        posted.change_spec() is Unrelated,
        posted.msg == state.release_msg,
        posted.wparam == state.message_next(hide).0.release_generation,
        show.change_spec() is Shown,
    ensures
        ({
            let (hidden, scheduled) = state.message_next(hide);
            let generation = posted.wparam;
            let (asked, suspension) = hidden.message_next(posted);
            let told = asked.suspend_next(SuspendEvent::VisibilityRead { visible: false });
            let rest = told.0.suspend_next(SuspendEvent::ControllerHidden { accepted: true });
            let (woken, waking) = rest.0.message_next(show);
            &&& scheduled.reaction == (Reaction::ScheduleRelease { generation })
            &&& hidden.request_call(generation, RequestEvent::Requested) == (
            RequestAction::AskVisible { hwnd: state.main_hwnd, message: state.release_msg })
            &&& suspension.reaction == Reaction::Suspend(
                SuspendAction::AskVisible { hwnd: state.main_hwnd },
            )
            &&& told.1 == (SuspendAction::Hide { controller: state.controller_ptr })
            &&& rest.1 == (SuspendAction::TrySuspend { core: state.core_ptr })
            &&& rest.0.release_call(generation, ReleaseEvent::SettleDelayElapsed) is Trim
            &&& waking.reaction == Reaction::Restore(RestoreAction::Resume { core: state.core_ptr })
            &&& woken.restore_next(RestoreEvent::Resumed).1 == (RestoreAction::Show {
                controller: state.controller_ptr,
            })
            &&& woken.release_call(generation, ReleaseEvent::SettleDelayElapsed) is Stop
        }),
{
    crate::generation::law_one_advance(posted.wparam);
}

} // verus!
