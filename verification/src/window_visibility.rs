//! Watching the main window: announces each time that it is shown again, and
//! hands memory back some time after it was hidden.

use vstd::prelude::*;

use crate::generation::advance;
use crate::messages::{Message, ProcAction, ProcEvent, WindowChange};

verus! {

/// How long the window has to stay hidden before memory is handed back. It keeps
/// quick toggling from paging memory out and in again.
pub const HIDE_RELEASE_DELAY_MS: u64 = 3000;

/// The identity under which the window procedure is hooked.
pub const SUBCLASS_ID: usize = 1338;

/// The label of the window that is watched.
pub const MAIN_WINDOW_LABEL: &'static str = "main";

/// The event that tells the front end that the main window is shown again. It
/// loads the history anew then, so that an update that got lost cannot leave the
/// list incomplete for good.
pub const MAIN_WINDOW_SHOWN_EVENT: &'static str = "main-window-shown";

/// What is known about the main window.
#[derive(Clone, Copy, Debug, PartialEq, Eq)]
pub struct WindowVisibility {
    /// Whether the window procedure is hooked, or is being hooked.
    pub hook_installed: bool,
    /// The handle of the main window, or 0 where there is none.
    pub main_hwnd: usize,
    pub main_window_hidden: bool,
    /// Advances whenever a pending release is to be forgotten.
    pub release_generation: usize,
}

/// What the system answered while the hook is being installed.
///
/// `hwnd` is the handle that was read when the installation began.
#[derive(Clone, Copy, Debug, PartialEq, Eq)]
pub enum InstallEvent {
    Requested,
    WindowLookedUp { found: bool },
    HandleRead { handle: Option<usize> },
    /// The work handed to the main thread begins.
    MainThreadReached { hwnd: usize },
    VisibilityRead { hwnd: usize, visible: bool },
    /// Whether the main thread took the work. It may do it later.
    Dispatched { accepted: bool },
}

/// The next call of the installation. Nothing follows `Subclass` and `Finished`.
#[derive(Clone, Copy, Debug, PartialEq, Eq)]
pub enum InstallAction {
    FindWindow { label: &'static str },
    ReadHandle,
    RunOnMainThread { hwnd: usize },
    /// Ask whether `window` is visible, on behalf of hooking `hwnd`.
    AskVisible { window: usize, hwnd: usize },
    Subclass { hwnd: usize, id: usize },
    Finished,
}

/// What a message of the window calls for.
#[derive(Clone, Copy, Debug, PartialEq, Eq)]
pub enum Reaction {
    Nothing,
    Emit { event: &'static str },
    ScheduleRelease { generation: usize },
    RemoveSubclass { hwnd: usize, id: usize },
}

/// How a message of the window is dealt with.
#[derive(Clone, Copy, Debug, PartialEq, Eq)]
pub struct Outcome {
    pub reaction: Reaction,
    /// The result to give for the message. Without one, the message is passed on
    /// to the next window procedure.
    pub answer: Option<isize>,
}

/// Whether the main window can be seen, as far as that is known without asking.
#[derive(Clone, Copy, Debug, PartialEq, Eq)]
pub enum Visibility {
    Known { visible: bool },
    Ask { hwnd: usize },
}

/// What happened to a scheduled release.
#[derive(Clone, Copy, Debug, PartialEq, Eq)]
pub enum ReleaseEvent {
    Scheduled,
    DelayElapsed,
    VisibilityRead { visible: bool },
}

/// The next call of a scheduled release. Nothing follows `Trim` and `Stop`.
#[derive(Clone, Copy, Debug, PartialEq, Eq)]
pub enum ReleaseAction {
    Wait { millis: u64 },
    AskVisible { hwnd: usize },
    Trim,
    Stop,
}

impl WindowVisibility {
    /// The state before anything is hooked.
    pub fn new() -> (state: Self)
        ensures
            state == (WindowVisibility {
                hook_installed: false,
                main_hwnd: 0,
                main_window_hidden: false,
                release_generation: 0,
            }),
    {
        WindowVisibility {
            hook_installed: false,
            main_hwnd: 0,
            main_window_hidden: false,
            release_generation: 0,
        }
    }

    /// The state with the generation moved on, so that pending releases are stale.
    pub open spec fn overtaken(self) -> Self {
        WindowVisibility {
            release_generation: crate::generation::advanced(self.release_generation, 1),
            ..self
        }
    }

    /// What is known of the visibility: without a window nothing can be seen.
    pub open spec fn visibility(self) -> Visibility {
        if self.main_hwnd == 0 {
            Visibility::Known { visible: false }
        } else {
            Visibility::Ask { hwnd: self.main_hwnd }
        }
    }

    /// The state and the call that follow an answer while the hook is being
    /// installed.
    pub open spec fn install_next(self, event: InstallEvent) -> (Self, InstallAction) {
        match event {
            InstallEvent::Requested => if self.hook_installed {
                (self, InstallAction::Finished)
            } else {
                (self, InstallAction::FindWindow { label: MAIN_WINDOW_LABEL })
            },
            InstallEvent::WindowLookedUp { found } => if found {
                (self, InstallAction::ReadHandle)
            } else {
                (self, InstallAction::Finished)
            },
            InstallEvent::HandleRead { handle } => match handle {
                Some(hwnd) if !self.hook_installed => (
                    WindowVisibility { hook_installed: true, main_hwnd: hwnd, ..self },
                    InstallAction::RunOnMainThread { hwnd },
                ),
                _ => (self, InstallAction::Finished),
            },
            InstallEvent::MainThreadReached { hwnd } => match self.visibility() {
                Visibility::Known { visible } => (
                    WindowVisibility { main_window_hidden: !visible, ..self },
                    InstallAction::Subclass { hwnd, id: SUBCLASS_ID },
                ),
                Visibility::Ask { hwnd: window } => (
                    self,
                    InstallAction::AskVisible { window, hwnd },
                ),
            },
            InstallEvent::VisibilityRead { hwnd, visible } => (
                WindowVisibility { main_window_hidden: !visible, ..self },
                InstallAction::Subclass { hwnd, id: SUBCLASS_ID },
            ),
            InstallEvent::Dispatched { accepted } => (
                WindowVisibility { hook_installed: self.hook_installed && accepted, ..self },
                InstallAction::Finished,
            ),
        }
    }

    /// The state and the reaction that follow a showing.
    pub open spec fn shown_next(self) -> (Self, Reaction) {
        if self.main_window_hidden {
            (
                WindowVisibility { main_window_hidden: false, ..self.overtaken() },
                Reaction::Emit { event: MAIN_WINDOW_SHOWN_EVENT },
            )
        } else {
            (self, Reaction::Nothing)
        }
    }

    /// The state and the reaction that follow a hiding.
    pub open spec fn hidden_next(self) -> (Self, Reaction) {
        if self.main_window_hidden {
            (self, Reaction::Nothing)
        } else {
            (
                WindowVisibility { main_window_hidden: true, ..self.overtaken() },
                Reaction::ScheduleRelease { generation: self.overtaken().release_generation },
            )
        }
    }

    /// The state and the reaction that follow the destruction of the window.
    pub open spec fn teardown_next(self, hwnd: usize) -> (Self, Reaction) {
        (
            WindowVisibility { main_hwnd: 0, ..self.overtaken() },
            Reaction::RemoveSubclass { hwnd, id: SUBCLASS_ID },
        )
    }

    /// The state and the outcome that follow a message of the window. Only a change
    /// of the visibility counts, not the second message about it, and no message is
    /// answered: all are passed on.
    pub open spec fn message_next(self, message: Message) -> (Self, Outcome) {
        let (next, reaction) = match message.change_spec() {
            WindowChange::Shown => self.shown_next(),
            WindowChange::Hidden => self.hidden_next(),
            WindowChange::Destroyed => self.teardown_next(message.hwnd),
            WindowChange::Unchanged | WindowChange::Unrelated => (self, Reaction::Nothing),
        };
        (next, Outcome { reaction, answer: None })
    }

    /// The call that follows what happened to a release scheduled with
    /// `generation`.
    pub open spec fn release_call(self, generation: usize, event: ReleaseEvent) -> ReleaseAction {
        match event {
            ReleaseEvent::Scheduled => ReleaseAction::Wait { millis: HIDE_RELEASE_DELAY_MS },
            ReleaseEvent::DelayElapsed => if self.release_generation != generation {
                ReleaseAction::Stop
            } else {
                match self.visibility() {
                    Visibility::Known { visible } => if visible {
                        ReleaseAction::Stop
                    } else {
                        ReleaseAction::Trim
                    },
                    Visibility::Ask { hwnd } => ReleaseAction::AskVisible { hwnd },
                }
            },
            ReleaseEvent::VisibilityRead { visible } => if visible {
                ReleaseAction::Stop
            } else {
                ReleaseAction::Trim
            },
        }
    }

    /// One step of hooking the window procedure. Once it is hooked, asking again
    /// does nothing, so every place that deals with the window may ask.
    pub fn install(&mut self, event: InstallEvent) -> (action: InstallAction)
        ensures
            (*final(self), action) == old(self).install_next(event),
    {
        match event {
            InstallEvent::Requested => {
                if self.hook_installed {
                    InstallAction::Finished
                } else {
                    InstallAction::FindWindow { label: MAIN_WINDOW_LABEL }
                }
            },
            InstallEvent::WindowLookedUp { found } => {
                if found {
                    InstallAction::ReadHandle
                } else {
                    InstallAction::Finished
                }
            },
            InstallEvent::HandleRead { handle } => {
                match handle {
                    Some(hwnd) => {
                        if self.hook_installed {
                            return InstallAction::Finished;
                        }
                        self.hook_installed = true;
                        self.main_hwnd = hwnd;
                        InstallAction::RunOnMainThread { hwnd }
                    },
                    None => InstallAction::Finished,
                }
            },
            InstallEvent::MainThreadReached { hwnd } => {
                match self.is_main_window_visible() {
                    Visibility::Known { visible } => {
                        self.main_window_hidden = !visible;
                        InstallAction::Subclass { hwnd, id: SUBCLASS_ID }
                    },
                    Visibility::Ask { hwnd: window } => InstallAction::AskVisible { window, hwnd },
                }
            },
            InstallEvent::VisibilityRead { hwnd, visible } => {
                self.main_window_hidden = !visible;
                InstallAction::Subclass { hwnd, id: SUBCLASS_ID }
            },
            InstallEvent::Dispatched { accepted } => {
                if !accepted {
                    self.hook_installed = false;
                }
                InstallAction::Finished
            },
        }
    }

    /// Takes a message of the window and says what it calls for.
    pub fn subclass_proc(&mut self, message: Message) -> (outcome: Outcome)
        ensures
            (*final(self), outcome) == old(self).message_next(message),
            outcome.answer is None,
    {
        let reaction = match message.change() {
            WindowChange::Shown => self.on_shown(),
            WindowChange::Hidden => self.on_hidden(),
            WindowChange::Destroyed => self.teardown(message.hwnd),
            WindowChange::Unchanged => Reaction::Nothing,
            WindowChange::Unrelated => Reaction::Nothing,
        };
        Outcome { reaction, answer: None }
    }

    /// The window is shown: where it was hidden, pending releases are forgotten
    /// and the showing is announced.
    pub fn on_shown(&mut self) -> (reaction: Reaction)
        ensures
            (*final(self), reaction) == old(self).shown_next(),
    {
        if !self.main_window_hidden {
            return Reaction::Nothing;
        }
        self.main_window_hidden = false;
        self.release_generation = advance(self.release_generation);
        Reaction::Emit { event: MAIN_WINDOW_SHOWN_EVENT }
    }

    /// The window is hidden: where it was shown, a release is scheduled.
    pub fn on_hidden(&mut self) -> (reaction: Reaction)
        ensures
            (*final(self), reaction) == old(self).hidden_next(),
    {
        if self.main_window_hidden {
            return Reaction::Nothing;
        }
        self.main_window_hidden = true;
        let generation: usize = self.schedule_release();
        Reaction::ScheduleRelease { generation }
    }

    /// Begins a release: every earlier one is forgotten, and the new one goes by
    /// the generation returned.
    pub fn schedule_release(&mut self) -> (generation: usize)
        ensures
            *final(self) == old(self).overtaken(),
            generation == final(self).release_generation,
    {
        self.release_generation = advance(self.release_generation);
        self.release_generation
    }

    /// One step of a release that was scheduled with `generation`. It waits, and
    /// then hands memory back, unless the window was shown again in between.
    pub fn release_step(&self, generation: usize, event: ReleaseEvent) -> (action: ReleaseAction)
        ensures
            action == self.release_call(generation, event),
    {
        match event {
            ReleaseEvent::Scheduled => ReleaseAction::Wait { millis: HIDE_RELEASE_DELAY_MS },
            ReleaseEvent::DelayElapsed => {
                if self.release_generation != generation {
                    return ReleaseAction::Stop;
                }
                match self.is_main_window_visible() {
                    Visibility::Known { visible } => {
                        if visible {
                            ReleaseAction::Stop
                        } else {
                            ReleaseAction::Trim
                        }
                    },
                    Visibility::Ask { hwnd } => ReleaseAction::AskVisible { hwnd },
                }
            },
            ReleaseEvent::VisibilityRead { visible } => {
                if visible {
                    ReleaseAction::Stop
                } else {
                    ReleaseAction::Trim
                }
            },
        }
    }

    /// Whether the main window can be seen, or which window to ask about.
    pub fn is_main_window_visible(&self) -> (visibility: Visibility)
        ensures
            visibility == self.visibility(),
    {
        if self.main_hwnd == 0 {
            return Visibility::Known { visible: false };
        }
        Visibility::Ask { hwnd: self.main_hwnd }
    }

    /// The window goes away: pending releases and the handle are forgotten.
    pub fn teardown(&mut self, hwnd: usize) -> (reaction: Reaction)
        ensures
            (*final(self), reaction) == old(self).teardown_next(hwnd),
    {
        self.release_generation = advance(self.release_generation);
        self.main_hwnd = 0;
        Reaction::RemoveSubclass { hwnd, id: SUBCLASS_ID }
    }
}

/// Anything that changes the state.
pub enum Step {
    Install(InstallEvent),
    Message(Message),
    Shown,
    Hidden,
    Schedule,
    Teardown(usize),
}

impl Step {
    /// Whether the step is about a showing.
    pub open spec fn shows(self) -> bool {
        match self {
            Step::Message(message) => message.change_spec() is Shown,
            Step::Shown => true,
            _ => false,
        }
    }

    /// Whether the step is about the end of the window.
    pub open spec fn tears_down(self) -> bool {
        match self {
            Step::Message(message) => message.change_spec() is Destroyed,
            Step::Teardown(_) => true,
            _ => false,
        }
    }

    /// Whether the step reports that the hooking was refused.
    pub open spec fn refuses_hook(self) -> bool {
        self == Step::Install(InstallEvent::Dispatched { accepted: false })
    }

    /// Whether the step reports the handle of the window to a request.
    pub open spec fn reads_handle(self) -> bool {
        self matches Step::Install(InstallEvent::HandleRead { handle: Some(_) })
    }
}

impl WindowVisibility {
    /// The state after one step.
    pub open spec fn after_step(self, step: Step) -> Self {
        match step {
            Step::Install(event) => self.install_next(event).0,
            Step::Message(message) => self.message_next(message).0,
            Step::Shown => self.shown_next().0,
            Step::Hidden => self.hidden_next().0,
            Step::Schedule => self.overtaken(),
            Step::Teardown(hwnd) => self.teardown_next(hwnd).0,
        }
    }

    /// What a step calls for on account of the window.
    pub open spec fn reaction_to(self, step: Step) -> Reaction {
        match step {
            Step::Message(message) => self.message_next(message).1.reaction,
            Step::Shown => self.shown_next().1,
            Step::Hidden => self.hidden_next().1,
            Step::Teardown(hwnd) => self.teardown_next(hwnd).1,
            Step::Install(_) | Step::Schedule => Reaction::Nothing,
        }
    }

    /// Whether a step hands the hooking to the main thread.
    pub open spec fn hooks(self, step: Step) -> bool {
        match step {
            Step::Install(event) => self.install_next(event).1 is RunOnMainThread,
            _ => false,
        }
    }

    /// Whether a step makes pending releases stale.
    pub open spec fn overtakes(self, step: Step) -> bool {
        step is Schedule || !(self.reaction_to(step) is Nothing)
    }

    /// Whether an installation step finds a window visible that was held hidden.
    pub open spec fn finds_shown(self, step: Step) -> bool {
        step is Install && self.main_window_hidden && !self.after_step(step).main_window_hidden
    }

    /// Whether an installation step finds a window hidden that was held visible.
    pub open spec fn finds_hidden(self, step: Step) -> bool {
        step is Install && !self.main_window_hidden && self.after_step(step).main_window_hidden
    }

    /// The state after a number of steps, in whatever order the threads made them.
    pub open spec fn after_steps(self, steps: Seq<Step>) -> Self
        decreases steps.len(),
    {
        if steps.len() == 0 {
            self
        } else {
            self.after_steps(steps.drop_last()).after_step(steps.last())
        }
    }

    /// How many of the steps are counted, each judged by the state at its time.
    pub open spec fn count(
        self,
        steps: Seq<Step>,
        counted: spec_fn(WindowVisibility, Step) -> bool,
    ) -> nat
        decreases steps.len(),
    {
        if steps.len() == 0 {
            0
        } else {
            let before = steps.drop_last();
            self.count(before, counted) + if counted(self.after_steps(before), steps.last()) {
                1nat
            } else {
                0nat
            }
        }
    }

    /// How many of the steps hand the hooking to the main thread.
    pub open spec fn hookings(self, steps: Seq<Step>) -> nat {
        self.count(steps, |state: WindowVisibility, step: Step| state.hooks(step))
    }

    /// How many of the steps make pending releases stale.
    pub open spec fn overtakings(self, steps: Seq<Step>) -> nat {
        self.count(steps, |state: WindowVisibility, step: Step| state.overtakes(step))
    }

    /// How many of the steps call for the showing to be announced.
    pub open spec fn announcements(self, steps: Seq<Step>) -> nat {
        self.count(steps, |state: WindowVisibility, step: Step| state.reaction_to(step) is Emit)
    }

    /// How many of the steps call for a release on account of a hiding.
    pub open spec fn schedulings(self, steps: Seq<Step>) -> nat {
        self.count(
            steps,
            |state: WindowVisibility, step: Step| state.reaction_to(step) is ScheduleRelease,
        )
    }

    /// How many of the steps find a window visible that was held hidden.
    pub open spec fn found_shown(self, steps: Seq<Step>) -> nat {
        self.count(steps, |state: WindowVisibility, step: Step| state.finds_shown(step))
    }

    /// How many of the steps find a window hidden that was held visible.
    pub open spec fn found_hidden(self, steps: Seq<Step>) -> nat {
        self.count(steps, |state: WindowVisibility, step: Step| state.finds_hidden(step))
    }
}

/// Once the hook is in place, asking for it again does nothing: not at the start,
/// and not for a request that was overtaken while it looked for the window.
pub proof fn law_install_is_idempotent(state: WindowVisibility, handle: Option<usize>)
    requires
        state.hook_installed,
    ensures
        state.install_next(InstallEvent::Requested) == (state, InstallAction::Finished),
        state.install_next(InstallEvent::HandleRead { handle }) == (state, InstallAction::Finished),
{
}

/// However many requests are under way, and whatever else happens, the hooking is
/// handed to the main thread at most once, as long as the main thread refuses none:
/// exactly once where the hook was not in place and some request read the handle of
/// the window, and otherwise never. Once in place the hook stays, even when the
/// window is destroyed.
pub proof fn law_hooked_at_most_once(state: WindowVisibility, steps: Seq<Step>)
    requires
        forall|i: int| 0 <= i < steps.len() ==> !(#[trigger] steps[i]).refuses_hook(),
    ensures
        state.hookings(steps) <= 1,
        state.hookings(steps) == 1 <==> !state.hook_installed && exists|i: int|
            0 <= i < steps.len() && (#[trigger] steps[i]).reads_handle(),
        state.after_steps(steps).hook_installed <==> state.hook_installed || state.hookings(steps)
            == 1,
    decreases steps.len(),
{
    if steps.len() > 0 {
        let before = steps.drop_last();
        let last = steps.last();
        assert forall|i: int| 0 <= i < before.len() implies !(
        #[trigger] before[i]).refuses_hook() by {
            assert(before[i] == steps[i]);
        }
        law_hooked_at_most_once(state, before);
        assert(steps[steps.len() - 1] == last);
        assert(!last.refuses_hook());
        let read_before = exists|i: int|
            0 <= i < before.len() && (#[trigger] before[i]).reads_handle();
        let read = exists|i: int| 0 <= i < steps.len() && (#[trigger] steps[i]).reads_handle();
        assert(read <==> read_before || last.reads_handle()) by {
            if read_before {
                let i = choose|i: int|
                    0 <= i < before.len() && (#[trigger] before[i]).reads_handle();
                assert(steps[i].reads_handle());
            }
            if read {
                let i = choose|i: int| 0 <= i < steps.len() && (#[trigger] steps[i]).reads_handle();
                if i < before.len() {
                    assert(before[i].reads_handle());
                }
            }
        }
        let middle = state.after_steps(before);
        assert(middle.hooks(last) <==> !middle.hook_installed && last.reads_handle());
    }
}

/// Only a refusal of the main thread undoes the hook.
pub proof fn law_only_refusal_undoes_hook(state: WindowVisibility, step: Step)
    requires
        state.hook_installed,
    ensures
        state.after_step(step).hook_installed <==> !step.refuses_hook(),
{
}

/// A refusal of the main thread makes room for another attempt.
pub proof fn law_refused_hook_can_be_retried(state: WindowVisibility)
    ensures
        state.install_next(InstallEvent::Dispatched { accepted: false }).0.install_next(
            InstallEvent::Requested,
        ).1 is FindWindow,
{
}

/// Whether `event` is an answer to the call `action`. The work that is handed to the
/// main thread starts a course of its own there.
pub open spec fn answers_install(action: InstallAction, event: InstallEvent) -> bool {
    match action {
        InstallAction::FindWindow { .. } => event is WindowLookedUp,
        InstallAction::ReadHandle => event is HandleRead,
        InstallAction::RunOnMainThread { .. } => event is Dispatched,
        InstallAction::AskVisible { window: _, hwnd } => event is VisibilityRead
            && event->VisibilityRead_hwnd == hwnd,
        InstallAction::Subclass { .. } | InstallAction::Finished => false,
    }
}

/// Whether each event answers the call that followed the one before it. Each stands
/// with the state at its time, which anything may have changed in between.
pub open spec fn is_install_course(run: Seq<(WindowVisibility, InstallEvent)>) -> bool {
    &&& run.len() > 0
    &&& forall|i: int|
        0 <= i < run.len() - 1 ==> answers_install(
            (#[trigger] run[i]).0.install_next(run[i].1).1,
            run[i + 1].1,
        )
}

/// Whether nothing but the course itself changed whether the hook is in place.
pub open spec fn hook_untouched(run: Seq<(WindowVisibility, InstallEvent)>) -> bool {
    forall|i: int|
        0 <= i < run.len() - 1 ==> run[i + 1].0.hook_installed == (#[trigger] run[i]).0.install_next(
            run[i].1,
        ).0.hook_installed
}

/// Whether the window was found, its handle was read and the main thread took the
/// work, in the course of one request.
pub open spec fn went_through(run: Seq<(WindowVisibility, InstallEvent)>) -> bool {
    &&& run.len() == 4
    &&& run[1].1 == (InstallEvent::WindowLookedUp { found: true })
    &&& run[2].1 is HandleRead
    &&& run[2].1->handle is Some
    &&& run[3].1 == (InstallEvent::Dispatched { accepted: true })
}

/// A request that has come to its end looked for the main window unless the hook was
/// in place, read the handle where it found the window, and handed the hooking of
/// that very window over where it got the handle and no other request was faster. It
/// recorded the handle with that.
pub proof fn law_install_request_runs(run: Seq<(WindowVisibility, InstallEvent)>)
    requires
        is_install_course(run),
        run[0].1 is Requested,
        run.last().0.install_next(run.last().1).1 is Finished,
    ensures
        run.len() <= 4,
        run.len() >= 2 <==> !run[0].0.hook_installed,
        run.len() >= 2 ==> run[0].0.install_next(run[0].1).1 == (InstallAction::FindWindow {
            label: MAIN_WINDOW_LABEL,
        }) && run[1].1 is WindowLookedUp,
        run.len() >= 3 <==> run.len() >= 2 && run[1].1->found,
        run.len() >= 3 ==> run[1].0.install_next(run[1].1).1 is ReadHandle && run[2].1 is HandleRead,
        run.len() == 4 <==> run.len() >= 3 && run[2].1->handle is Some && !run[2].0.hook_installed,
        run.len() == 4 ==> {
            let hwnd = run[2].1->handle->0;
            &&& run[2].0.install_next(run[2].1) == (
                WindowVisibility { hook_installed: true, main_hwnd: hwnd, ..run[2].0 },
                InstallAction::RunOnMainThread { hwnd },
            )
            &&& run[3].1 is Dispatched
        },
{
    if run.len() > 1 {
        assert(answers_install(run[0].0.install_next(run[0].1).1, run[1].1));
        if run.len() > 2 {
            assert(answers_install(run[1].0.install_next(run[1].1).1, run[2].1));
            if run.len() > 3 {
                assert(answers_install(run[2].0.install_next(run[2].1).1, run[3].1));
                if run.len() > 4 {
                    assert(answers_install(run[3].0.install_next(run[3].1).1, run[4].1));
                }
            }
        }
    }
}

/// Where nothing else touched the hook meanwhile, it is in place after a request
/// exactly where it was before, or where the window was found, its handle was read
/// and the main thread took the work.
pub proof fn law_install_request_settles_hook(run: Seq<(WindowVisibility, InstallEvent)>)
    requires
        is_install_course(run),
        hook_untouched(run),
        run[0].1 is Requested,
        run.last().0.install_next(run.last().1).1 is Finished,
    ensures
        run.last().0.install_next(run.last().1).0.hook_installed <==> run[0].0.hook_installed
            || went_through(run),
{
    law_install_request_runs(run);
    if run.len() > 1 {
        assert(run[1].0.hook_installed == run[0].0.install_next(run[0].1).0.hook_installed);
        if run.len() > 2 {
            assert(run[2].0.hook_installed == run[1].0.install_next(run[1].1).0.hook_installed);
            if run.len() > 3 {
                assert(run[3].0.hook_installed == run[2].0.install_next(run[2].1).0.hook_installed);
            }
        }
    }
}

/// The work on the main thread, once it has come to its end, hooked the window that
/// it was handed, and first took over whether the main window was seen: without one
/// it is not, and otherwise the system was asked about it.
pub proof fn law_hooking_takes_over_visibility(run: Seq<(WindowVisibility, InstallEvent)>)
    requires
        is_install_course(run),
        run[0].1 is MainThreadReached,
        run.last().0.install_next(run.last().1).1 is Subclass,
    ensures
        run.last().0.install_next(run.last().1).1 == (InstallAction::Subclass {
            hwnd: run[0].1->MainThreadReached_hwnd,
            id: SUBCLASS_ID,
        }),
        run.len() == if run[0].0.main_hwnd == 0 {
            1nat
        } else {
            2nat
        },
        run.len() == 2 ==> run[0].0.install_next(run[0].1).1 == (InstallAction::AskVisible {
            window: run[0].0.main_hwnd,
            hwnd: run[0].1->MainThreadReached_hwnd,
        }) && run[1].1 is VisibilityRead,
        run.last().0.install_next(run.last().1).0.main_window_hidden == (run.len() == 1
            || !run[1].1->visible),
{
    if run.len() > 1 {
        assert(answers_install(run[0].0.install_next(run[0].1).1, run[1].1));
        if run.len() > 2 {
            assert(answers_install(run[1].0.install_next(run[1].1).1, run[2].1));
        }
    }
}

/// A showing, or a hiding, that comes with two messages is acted on once: the
/// second one changes nothing and calls for nothing.
pub proof fn law_second_message_is_ignored(
    state: WindowVisibility,
    first: Message,
    second: Message,
)
    requires
        first.change_spec() == second.change_spec(),
        first.change_spec() is Shown || first.change_spec() is Hidden,
    ensures
        state.message_next(first).0.message_next(second) == (
            state.message_next(first).0,
            Outcome { reaction: Reaction::Nothing, answer: None },
        ),
{
}

/// Every message is passed on exactly once, after it was handled and with all that
/// it came with, and what the next window procedure returned is returned.
pub proof fn law_every_message_is_passed_on(
    state: WindowVisibility,
    message: Message,
    run: Seq<ProcEvent>,
)
    requires
        crate::messages::is_proc_run(message, state.message_next(message).1.answer, run),
        message.conclusion(state.message_next(message).1.answer, run.last()) is Return,
    ensures
        run.len() == 2,
        run[1] is PassedOn,
        crate::messages::proc_calls(message, state.message_next(message).1.answer, run) == seq![
            ProcAction::PassOn {
                hwnd: message.hwnd,
                msg: message.msg,
                wparam: message.wparam,
                lparam: message.lparam,
            },
            ProcAction::Return { result: run[1]->result },
        ],
{
    crate::messages::law_unanswered_message_is_passed_on_once(message, None, run);
}

/// Over any course of steps, as many showings are announced as hidings get a
/// release, but for what the window was held to be at the start and at the end, and
/// for the times that the hooking, which reads the visibility anew, corrected that.
pub proof fn law_announcements_alternate_with_releases(state: WindowVisibility, steps: Seq<Step>)
    ensures
        state.announcements(steps) + state.found_shown(steps) + (if state.after_steps(
            steps,
        ).main_window_hidden {
            1int
        } else {
            0int
        }) == state.schedulings(steps) + state.found_hidden(steps)
            + (if state.main_window_hidden {
            1int
        } else {
            0int
        }),
    decreases steps.len(),
{
    if steps.len() > 0 {
        law_announcements_alternate_with_releases(state, steps.drop_last());
    }
}

/// The generation counts the steps that make pending releases stale, and nothing
/// else.
pub proof fn law_generation_counts_changes(state: WindowVisibility, steps: Seq<Step>)
    ensures
        state.after_steps(steps).release_generation == crate::generation::advanced(
            state.release_generation,
            state.overtakings(steps),
        ),
        state.overtakings(steps) <= steps.len(),
    decreases steps.len(),
{
    if steps.len() == 0 {
        crate::generation::law_advances_add_up(state.release_generation, 0, 0);
    } else {
        let before = steps.drop_last();
        law_generation_counts_changes(state, before);
        crate::generation::law_advances_add_up(
            state.release_generation,
            state.overtakings(before),
            1,
        );
    }
}

/// Destroying the window, and showing it while it is held hidden, make pending
/// releases stale, whatever other steps come before or after.
pub proof fn law_showing_counts(state: WindowVisibility, steps: Seq<Step>, i: int)
    requires
        0 <= i < steps.len(),
        steps[i].tears_down() || (steps[i].shows() && state.after_steps(
            steps.take(i),
        ).main_window_hidden),
    ensures
        state.overtakings(steps) > 0,
    decreases steps.len(),
{
    let before = steps.drop_last();
    if i < before.len() {
        assert(before[i] == steps[i]);
        assert(before.take(i) =~= steps.take(i));
        law_showing_counts(state, before, i);
    } else {
        assert(before =~= steps.take(i));
    }
}

/// A hidden window is held hidden until a step makes pending releases stale or the
/// hooking finds it visible.
pub proof fn law_hidden_until_changed(state: WindowVisibility, steps: Seq<Step>)
    requires
        state.main_window_hidden,
        state.overtakings(steps) == 0,
        state.found_shown(steps) == 0,
    ensures
        state.after_steps(steps).main_window_hidden,
    decreases steps.len(),
{
    if steps.len() > 0 {
        law_hidden_until_changed(state, steps.drop_last());
    }
}

/// Steps that say nothing new about a hidden window, or that only hook it, leave
/// its pending release in force.
pub proof fn law_quiet_steps_do_not_count(state: WindowVisibility, steps: Seq<Step>)
    requires
        state.main_window_hidden,
        state.found_shown(steps) == 0,
        forall|i: int|
            0 <= i < steps.len() ==> !(#[trigger] steps[i]).shows() && !steps[i].tears_down()
                && !(steps[i] is Schedule),
    ensures
        state.overtakings(steps) == 0,
        state.after_steps(steps).main_window_hidden,
    decreases steps.len(),
{
    if steps.len() > 0 {
        let before = steps.drop_last();
        assert forall|i: int| 0 <= i < before.len() implies !(#[trigger] before[i]).shows()
            && !before[i].tears_down() && !(before[i] is Schedule) by {
            assert(before[i] == steps[i]);
        }
        law_quiet_steps_do_not_count(state, before);
        assert(steps[steps.len() - 1] == steps.last());
    }
}

/// A pending release is dropped if a step made it stale before its delay is over,
/// whatever else happens in between. Only whole turns of the generation counter are
/// left out.
pub proof fn law_overtaken_release_stops(state: WindowVisibility, steps: Seq<Step>)
    requires
        !crate::generation::comes_round(state.overtakings(steps)),
    ensures
        state.after_steps(steps).release_call(
            state.release_generation,
            ReleaseEvent::DelayElapsed,
        ) is Stop,
{
    law_generation_counts_changes(state, steps);
    crate::generation::law_overtaken_generation_differs(
        state.release_generation,
        state.overtakings(steps),
    );
}

/// A pending release that no step made stale goes on after its delay: it asks about
/// the window, or hands memory back where there is none.
pub proof fn law_undisturbed_release_stays(state: WindowVisibility, steps: Seq<Step>)
    requires
        state.overtakings(steps) == 0,
    ensures
        ({
            let later = state.after_steps(steps);
            later.release_call(state.release_generation, ReleaseEvent::DelayElapsed)
                == if later.main_hwnd == 0 {
                ReleaseAction::Trim
            } else {
                ReleaseAction::AskVisible { hwnd: later.main_hwnd }
            }
        }),
{
    law_generation_counts_changes(state, steps);
    crate::generation::law_advances_add_up(state.release_generation, 0, 0);
}

/// Where no request reads the handle of the window, the window is not hooked.
pub proof fn law_no_handle_no_hooking(state: WindowVisibility, steps: Seq<Step>)
    requires
        forall|i: int| 0 <= i < steps.len() ==> !(#[trigger] steps[i]).reads_handle(),
    ensures
        state.hookings(steps) == 0,
    decreases steps.len(),
{
    if steps.len() > 0 {
        let before = steps.drop_last();
        assert forall|i: int| 0 <= i < before.len() implies !(
        #[trigger] before[i]).reads_handle() by {
            assert(before[i] == steps[i]);
        }
        law_no_handle_no_hooking(state, before);
        assert(!steps[steps.len() - 1].reads_handle());
    }
}

/// A window that is gone stays gone until a window is hooked anew.
pub proof fn law_window_stays_gone(state: WindowVisibility, steps: Seq<Step>)
    requires
        state.main_hwnd == 0,
        state.hookings(steps) == 0,
    ensures
        state.after_steps(steps).main_hwnd == 0,
    decreases steps.len(),
{
    if steps.len() > 0 {
        law_window_stays_gone(state, steps.drop_last());
    }
}

/// A destroyed window cannot be seen, whatever happens after that, until a window is
/// hooked anew.
pub proof fn law_destroyed_window_is_unseen(
    state: WindowVisibility,
    message: Message,
    steps: Seq<Step>,
)
    requires
        message.change_spec() is Destroyed,
        state.message_next(message).0.hookings(steps) == 0,
    ensures
        state.message_next(message).0.after_steps(steps).visibility() == (Visibility::Known {
            visible: false,
        }),
{
    law_window_stays_gone(state.message_next(message).0, steps);
}

/// Whether `event` is what comes after the call `action`.
pub open spec fn answers_release(action: ReleaseAction, event: ReleaseEvent) -> bool {
    match action {
        ReleaseAction::Wait { .. } => event is DelayElapsed,
        ReleaseAction::AskVisible { .. } => event is VisibilityRead,
        ReleaseAction::Trim | ReleaseAction::Stop => false,
    }
}

/// Whether the events belong to one release, from its scheduling on. Each stands
/// with the state at its time, which anything may have changed in between.
pub open spec fn is_release_run(
    generation: usize,
    run: Seq<(WindowVisibility, ReleaseEvent)>,
) -> bool {
    &&& run.len() > 0
    &&& run[0].1 is Scheduled
    &&& forall|i: int|
        0 <= i < run.len() - 1 ==> answers_release(
            (#[trigger] run[i]).0.release_call(generation, run[i].1),
            run[i + 1].1,
        )
}

/// A release that has come to its end waited for the whole delay first. It hands
/// memory back exactly where nothing overtook it until then and the main window
/// is gone or was found hidden.
pub proof fn law_release_trims_iff_unseen(
    generation: usize,
    run: Seq<(WindowVisibility, ReleaseEvent)>,
)
    requires
        is_release_run(generation, run),
        ({
            let end = run.last().0.release_call(generation, run.last().1);
            end is Trim || end is Stop
        }),
    ensures
        run.len() >= 2,
        run[0].0.release_call(generation, run[0].1) == (ReleaseAction::Wait {
            millis: HIDE_RELEASE_DELAY_MS,
        }),
        run[1].1 is DelayElapsed,
        run.last().0.release_call(generation, run.last().1) is Trim <==> {
            &&& run[1].0.release_generation == generation
            &&& run[1].0.main_hwnd == 0 || (run.len() == 3 && run[2].1
                == (ReleaseEvent::VisibilityRead { visible: false }))
        },
{
    assert(run.len() >= 2);
    assert(answers_release(run[0].0.release_call(generation, run[0].1), run[1].1));
    if run.len() > 2 {
        assert(answers_release(run[1].0.release_call(generation, run[1].1), run[2].1));
        if run.len() > 3 {
            assert(answers_release(run[2].0.release_call(generation, run[2].1), run[3].1));
        }
    }
}

/// Making pending releases stale moves the generation on by one and touches nothing
/// else.
pub proof fn law_overtaking_moves_generation_only(state: WindowVisibility)
    ensures
        state.overtaken().release_generation == if state.release_generation == usize::MAX {
            0
        } else {
            state.release_generation + 1
        },
        state.overtaken().hook_installed == state.hook_installed,
        state.overtaken().main_hwnd == state.main_hwnd,
        state.overtaken().main_window_hidden == state.main_window_hidden,
{
    crate::generation::law_one_advance(state.release_generation);
}

/// The system is asked about the very window whose handle is known. Only without one
/// it is known that nothing can be seen.
pub proof fn law_known_window_is_asked_about(state: WindowVisibility)
    ensures
        state.main_hwnd != 0 ==> state.visibility() == (Visibility::Ask { hwnd: state.main_hwnd }),
        state.main_hwnd == 0 ==> state.visibility() == (Visibility::Known { visible: false }),
{
}

/// A request goes on wherever it can: it looks for the main window where the hook is
/// not in place, reads the handle of a window that was found, and hands over the
/// hooking of a handle that was read, recording it, where the hook is still not in
/// place. Everywhere else it ends with nothing changed.
pub proof fn law_request_goes_on(state: WindowVisibility, found: bool, hwnd: usize)
    ensures
        state.install_next(InstallEvent::Requested).0 == state,
        state.install_next(InstallEvent::Requested).1 == if state.hook_installed {
            InstallAction::Finished
        } else {
            InstallAction::FindWindow { label: MAIN_WINDOW_LABEL }
        },
        state.install_next(InstallEvent::WindowLookedUp { found }).0 == state,
        state.install_next(InstallEvent::WindowLookedUp { found }).1 is ReadHandle <==> found,
        state.install_next(InstallEvent::WindowLookedUp { found }).1 is Finished <==> !found,
        state.install_next(InstallEvent::HandleRead { handle: None }) == (
            state,
            InstallAction::Finished,
        ),
        !state.hook_installed ==> ({
            let (next, action) = state.install_next(InstallEvent::HandleRead { handle: Some(hwnd) });
            &&& action == (InstallAction::RunOnMainThread { hwnd })
            &&& next.hook_installed
            &&& next.main_hwnd == hwnd
            &&& next.main_window_hidden == state.main_window_hidden
            &&& next.release_generation == state.release_generation
        }),
{
}

/// The reply of the main thread ends the request: a refusal takes the hook back, and
/// nothing else changes.
pub proof fn law_reply_of_main_thread(state: WindowVisibility, accepted: bool)
    ensures
        ({
            let (next, action) = state.install_next(InstallEvent::Dispatched { accepted });
            &&& action is Finished
            &&& next.hook_installed <==> state.hook_installed && accepted
            &&& next.main_hwnd == state.main_hwnd
            &&& next.main_window_hidden == state.main_window_hidden
            &&& next.release_generation == state.release_generation
        }),
{
}

/// The work on the main thread always comes to hooking the window that it was handed:
/// at once where no main window is known, which is then held hidden, and otherwise
/// after the main window was asked about, which is then held to be what the system
/// said. Nothing else changes.
pub proof fn law_main_thread_hooks(
    reached: WindowVisibility,
    read: WindowVisibility,
    hwnd: usize,
    visible: bool,
)
    ensures
        reached.main_hwnd != 0 ==> reached.install_next(InstallEvent::MainThreadReached { hwnd })
            == (reached, InstallAction::AskVisible { window: reached.main_hwnd, hwnd }),
        reached.main_hwnd == 0 ==> ({
            let (next, action) = reached.install_next(InstallEvent::MainThreadReached { hwnd });
            &&& action == (InstallAction::Subclass { hwnd, id: SUBCLASS_ID })
            &&& next.main_window_hidden
            &&& next.hook_installed == reached.hook_installed
            &&& next.main_hwnd == reached.main_hwnd
            &&& next.release_generation == reached.release_generation
        }),
        ({
            let (next, action) = read.install_next(InstallEvent::VisibilityRead { hwnd, visible });
            &&& action == (InstallAction::Subclass { hwnd, id: SUBCLASS_ID })
            &&& next.main_window_hidden == !visible
            &&& next.hook_installed == read.hook_installed
            &&& next.main_hwnd == read.main_hwnd
            &&& next.release_generation == read.release_generation
        }),
{
}

/// A hiding of a window that is held visible is always acted on: the window is held
/// hidden, the generation moves on, and a release with the new generation is called
/// for. A hiding of a window that is held hidden changes nothing.
pub proof fn law_hiding_is_acted_on(state: WindowVisibility)
    ensures
        !state.main_window_hidden ==> ({
            let (next, reaction) = state.hidden_next();
            &&& reaction == (Reaction::ScheduleRelease { generation: next.release_generation })
            &&& next.main_window_hidden
            &&& next.release_generation == crate::generation::advanced(state.release_generation, 1)
            &&& next.main_hwnd == state.main_hwnd
            &&& next.hook_installed == state.hook_installed
        }),
        state.main_window_hidden ==> state.hidden_next() == (state, Reaction::Nothing),
{
}

/// A showing of a window that is held hidden is always acted on: the window is held
/// visible, the generation moves on, and the showing is announced. A showing of a
/// window that is held visible changes nothing.
pub proof fn law_showing_is_acted_on(state: WindowVisibility)
    ensures
        state.main_window_hidden ==> ({
            let (next, reaction) = state.shown_next();
            &&& reaction == (Reaction::Emit { event: MAIN_WINDOW_SHOWN_EVENT })
            &&& !next.main_window_hidden
            &&& next.release_generation == crate::generation::advanced(state.release_generation, 1)
            &&& next.main_hwnd == state.main_hwnd
            &&& next.hook_installed == state.hook_installed
        }),
        !state.main_window_hidden ==> state.shown_next() == (state, Reaction::Nothing),
{
}

/// The end of a window always unhooks that window, forgets the handle and moves the
/// generation on, and changes nothing else.
pub proof fn law_destruction_is_acted_on(state: WindowVisibility, hwnd: usize)
    ensures
        ({
            let (next, reaction) = state.teardown_next(hwnd);
            &&& reaction == (Reaction::RemoveSubclass { hwnd, id: SUBCLASS_ID })
            &&& next.main_hwnd == 0
            &&& next.release_generation == crate::generation::advanced(state.release_generation, 1)
            &&& next.main_window_hidden == state.main_window_hidden
            &&& next.hook_installed == state.hook_installed
        }),
{
}

/// Each message has the effect of what it announces, whatever else comes with it, and
/// one that announces nothing has none. None is answered.
pub proof fn law_messages_have_their_effect(state: WindowVisibility, message: Message)
    ensures
        message.change_spec() is Shown ==> state.message_next(message).0 == state.shown_next().0
            && state.message_next(message).1.reaction == state.shown_next().1,
        message.change_spec() is Hidden ==> state.message_next(message).0 == state.hidden_next().0
            && state.message_next(message).1.reaction == state.hidden_next().1,
        message.change_spec() is Destroyed ==> state.message_next(message).0 == state.teardown_next(
            message.hwnd,
        ).0 && state.message_next(message).1.reaction == state.teardown_next(message.hwnd).1,
        message.change_spec() is Unchanged || message.change_spec() is Unrelated
            ==> state.message_next(message).0 == state && state.message_next(
            message,
        ).1.reaction is Nothing,
        state.message_next(message).1.answer is None,
{
}

/// Toggling a window that is held visible: its hiding calls for a release, its showing
/// after that is announced, the release is stale then, and the window is held to be
/// what it was. The same goes for the next toggling, and so for every one.
pub proof fn law_toggling_announces(state: WindowVisibility, hide: Message, show: Message)
    requires
        !state.main_window_hidden,
        hide.change_spec() is Hidden,
        show.change_spec() is Shown,
    ensures
        ({
            let (hidden, first) = state.message_next(hide);
            let (shown, second) = hidden.message_next(show);
            &&& first.reaction is ScheduleRelease
            &&& second.reaction == (Reaction::Emit { event: MAIN_WINDOW_SHOWN_EVENT })
            &&& hidden.release_call(first.reaction->generation, ReleaseEvent::DelayElapsed)
                != ReleaseAction::Stop
            &&& shown.release_call(first.reaction->generation, ReleaseEvent::DelayElapsed)
                == ReleaseAction::Stop
            &&& shown.main_window_hidden == state.main_window_hidden
            &&& shown.main_hwnd == state.main_hwnd
            &&& shown.hook_installed == state.hook_installed
            &&& shown.release_generation == crate::generation::advanced(state.release_generation, 2)
        }),
{
    let generation = state.release_generation;
    let next = crate::generation::advanced(generation, 1);
    crate::generation::law_advances_add_up(generation, 1, 1);
    crate::generation::law_one_advance(next);
}

/// A release goes on wherever it can: it waits for the whole delay; where nothing
/// overtook it then, the main window is asked about, or memory is handed back at once
/// where there is none; and where the window was found hidden, memory is handed back.
/// Where it was overtaken, or the window was found visible, it stops.
pub proof fn law_release_goes_on(state: WindowVisibility, generation: usize)
    ensures
        state.release_call(generation, ReleaseEvent::Scheduled) == (ReleaseAction::Wait {
            millis: HIDE_RELEASE_DELAY_MS,
        }),
        state.release_generation == generation && state.main_hwnd != 0 ==> state.release_call(
            generation,
            ReleaseEvent::DelayElapsed,
        ) == (ReleaseAction::AskVisible { hwnd: state.main_hwnd }),
        state.release_generation == generation && state.main_hwnd == 0 ==> state.release_call(
            generation,
            ReleaseEvent::DelayElapsed,
        ) is Trim,
        state.release_generation != generation ==> state.release_call(
            generation,
            ReleaseEvent::DelayElapsed,
        ) is Stop,
        state.release_call(generation, ReleaseEvent::VisibilityRead { visible: false }) is Trim,
        state.release_call(generation, ReleaseEvent::VisibilityRead { visible: true }) is Stop,
{
}

} // verus!
