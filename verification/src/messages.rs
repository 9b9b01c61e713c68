//! What the messages of a window procedure say about the window.

use vstd::prelude::*;

verus! {

/// The window is being destroyed.
pub const WM_DESTROY: u32 = 0x0002;

/// The window is about to be shown or hidden.
pub const WM_SHOWWINDOW: u32 = 0x0018;

/// The size, position or visibility of the window is about to change.
pub const WM_WINDOWPOSCHANGING: u32 = 0x0046;

/// Flag of a position change: the window gets shown.
pub const SWP_SHOWWINDOW: u32 = 0x0040;

/// Flag of a position change: the window gets hidden.
pub const SWP_HIDEWINDOW: u32 = 0x0080;

/// What a message says about the window.
#[derive(Clone, Copy, Debug, PartialEq, Eq)]
pub enum WindowChange {
    Shown,
    Hidden,
    Destroyed,
    /// The position changes and the visibility does not.
    Unchanged,
    /// None of the messages that bear on the visibility.
    Unrelated,
}

/// A message as the window procedure gets it. `position` holds the flags of the
/// position change, where the message carries one.
#[derive(Clone, Copy, Debug, PartialEq, Eq)]
pub struct Message {
    pub hwnd: usize,
    pub msg: u32,
    pub wparam: usize,
    pub lparam: isize,
    pub position: Option<u32>,
}

/// How far a window procedure has come with a message.
#[derive(Clone, Copy, Debug, PartialEq, Eq)]
pub enum ProcEvent {
    /// What the message calls for is done.
    Handled,
    /// The next window procedure returned.
    PassedOn { result: isize },
}

/// The next call of a window procedure. Nothing follows `Return`.
#[derive(Clone, Copy, Debug, PartialEq, Eq)]
pub enum ProcAction {
    /// Call the next window procedure.
    PassOn { hwnd: usize, msg: u32, wparam: usize, lparam: isize },
    Return { result: isize },
}

/// Whether all bits of `flag` are set in `flags`.
pub open spec fn has_flag(flags: u32, flag: u32) -> bool {
    flags & flag == flag
}

impl Message {
    /// Whether the message carries a position change with the flag set.
    pub open spec fn moves_with(self, flag: u32) -> bool {
        self.msg == WM_WINDOWPOSCHANGING && self.position is Some && has_flag(
            self.position->0,
            flag,
        )
    }

    /// Whether the message announces that the window gets shown.
    pub open spec fn announces_showing(self) -> bool {
        ||| self.moves_with(SWP_SHOWWINDOW)
        ||| self.msg == WM_SHOWWINDOW && self.wparam != 0
    }

    /// Whether the message announces that the window gets hidden. A position
    /// change that asks for both counts as a showing.
    pub open spec fn announces_hiding(self) -> bool {
        ||| self.moves_with(SWP_HIDEWINDOW) && !self.moves_with(SWP_SHOWWINDOW)
        ||| self.msg == WM_SHOWWINDOW && self.wparam == 0
    }

    /// What the message says about the window, as a value.
    pub open spec fn change_spec(self) -> WindowChange {
        if self.announces_showing() {
            WindowChange::Shown
        } else if self.announces_hiding() {
            WindowChange::Hidden
        } else if self.msg == WM_DESTROY {
            WindowChange::Destroyed
        } else if self.msg == WM_WINDOWPOSCHANGING {
            WindowChange::Unchanged
        } else {
            WindowChange::Unrelated
        }
    }

    /// The call that follows once the message is handled. One without an answer is
    /// passed on as it came, and what the next procedure returns is returned.
    pub open spec fn conclusion(self, answer: Option<isize>, event: ProcEvent) -> ProcAction {
        match (event, answer) {
            (ProcEvent::PassedOn { result }, _) => ProcAction::Return { result },
            (ProcEvent::Handled, Some(result)) => ProcAction::Return { result },
            (ProcEvent::Handled, None) => ProcAction::PassOn {
                hwnd: self.hwnd,
                msg: self.msg,
                wparam: self.wparam,
                lparam: self.lparam,
            },
        }
    }

    /// One step of concluding the message, given the answer that the window
    /// procedure has for it, where it has one.
    pub fn conclude(&self, answer: Option<isize>, event: ProcEvent) -> (action: ProcAction)
        ensures
            action == self.conclusion(answer, event),
    {
        match event {
            ProcEvent::PassedOn { result } => ProcAction::Return { result },
            ProcEvent::Handled => match answer {
                Some(result) => ProcAction::Return { result },
                None => ProcAction::PassOn {
                    hwnd: self.hwnd,
                    msg: self.msg,
                    wparam: self.wparam,
                    lparam: self.lparam,
                },
            },
        }
    }

    /// What the message says about the window.
    pub fn change(&self) -> (change: WindowChange)
        ensures
            change == self.change_spec(),
    {
        if self.msg == WM_WINDOWPOSCHANGING {
            if let Some(flags) = self.position {
                if contains_flag(flags, SWP_SHOWWINDOW) {
                    return WindowChange::Shown;
                } else if contains_flag(flags, SWP_HIDEWINDOW) {
                    return WindowChange::Hidden;
                }
            }
            WindowChange::Unchanged
        } else if self.msg == WM_SHOWWINDOW {
            if self.wparam != 0 {
                WindowChange::Shown
            } else {
                WindowChange::Hidden
            }
        } else if self.msg == WM_DESTROY {
            WindowChange::Destroyed
        } else {
            WindowChange::Unrelated
        }
    }
}

/// Whether all bits of `flag` are set in `flags`.
pub fn contains_flag(flags: u32, flag: u32) -> (res: bool)
    ensures
        res == has_flag(flags, flag),
{
    flags & flag == flag
}

/// Whether the second parameter of a message points to a description of the
/// position change.
pub fn carries_position(msg: u32, lparam: isize) -> (res: bool)
    ensures
        res == (msg == WM_WINDOWPOSCHANGING && lparam != 0),
{
    msg == WM_WINDOWPOSCHANGING && lparam != 0
}

/// Whether `event` is what comes after the call `action`.
pub open spec fn answers_proc(action: ProcAction, event: ProcEvent) -> bool {
    match action {
        ProcAction::PassOn { .. } => event is PassedOn,
        ProcAction::Return { .. } => false,
    }
}

/// Whether the events belong to the conclusion of one message, from its being
/// handled on: each is what comes after the call that followed the one before it.
pub open spec fn is_proc_run(message: Message, answer: Option<isize>, run: Seq<ProcEvent>) -> bool {
    &&& run.len() > 0
    &&& run[0] is Handled
    &&& forall|i: int|
        0 <= i < run.len() - 1 ==> answers_proc(
            message.conclusion(answer, #[trigger] run[i]),
            run[i + 1],
        )
}

/// The calls that followed the events.
pub open spec fn proc_calls(message: Message, answer: Option<isize>, run: Seq<ProcEvent>) -> Seq<
    ProcAction,
> {
    run.map_values(|event: ProcEvent| message.conclusion(answer, event))
}

/// A message without an answer is passed on exactly once, after it was handled and
/// with all that it came with, and what the next window procedure returned is
/// returned. One with an answer is not passed on, and the answer is returned.
pub proof fn law_unanswered_message_is_passed_on_once(
    message: Message,
    answer: Option<isize>,
    run: Seq<ProcEvent>,
)
    requires
        is_proc_run(message, answer, run),
        message.conclusion(answer, run.last()) is Return,
    ensures
        match answer {
            None => {
                &&& run.len() == 2
                &&& run[1] is PassedOn
                &&& proc_calls(message, answer, run) == seq![
                    ProcAction::PassOn {
                        hwnd: message.hwnd,
                        msg: message.msg,
                        wparam: message.wparam,
                        lparam: message.lparam,
                    },
                    ProcAction::Return { result: run[1]->result },
                ]
            },
            Some(result) => proc_calls(message, answer, run) == seq![ProcAction::Return { result }],
        },
{
    if run.len() >= 2 {
        assert(answers_proc(message.conclusion(answer, run[0]), run[1]));
        if run.len() >= 3 {
            assert(answers_proc(message.conclusion(answer, run[1]), run[2]));
        }
    }
    match answer {
        None => {
            assert(proc_calls(message, answer, run) =~= seq![
                ProcAction::PassOn {
                    hwnd: message.hwnd,
                    msg: message.msg,
                    wparam: message.wparam,
                    lparam: message.lparam,
                },
                ProcAction::Return { result: run[1]->result },
            ]);
        },
        Some(result) => {
            assert(proc_calls(message, answer, run) =~= seq![ProcAction::Return { result }]);
        },
    }
}

/// A flag is contained exactly where setting it changes nothing.
pub proof fn law_contained_flag_adds_nothing(flags: u32, flag: u32)
    ensures
        has_flag(flags, flag) <==> flags | flag == flags,
{
    assert(flags & flag == flag <==> flags | flag == flags) by (bit_vector);
}

/// What each message says: the visibility changes where a position change carries
/// one of the two flags, showing before hiding, and where the parameter of the
/// showing message says so; the rest is the end of the window, a mere move, or
/// nothing about the window.
pub proof fn law_messages_say(message: Message)
    ensures
        message.change_spec() is Shown <==> {
            ||| message.msg == WM_WINDOWPOSCHANGING && message.position is Some
                && message.position->0 & SWP_SHOWWINDOW != 0
            ||| message.msg == WM_SHOWWINDOW && message.wparam != 0
        },
        message.change_spec() is Hidden <==> {
            ||| message.msg == WM_WINDOWPOSCHANGING && message.position is Some
                && message.position->0 & SWP_SHOWWINDOW == 0 && message.position->0 & SWP_HIDEWINDOW
                != 0
            ||| message.msg == WM_SHOWWINDOW && message.wparam == 0
        },
        message.change_spec() is Destroyed <==> message.msg == WM_DESTROY,
        message.change_spec() is Unchanged <==> message.msg == WM_WINDOWPOSCHANGING && (
        message.position is None || (message.position->0 & SWP_SHOWWINDOW == 0
            && message.position->0 & SWP_HIDEWINDOW == 0)),
        message.change_spec() is Unrelated <==> message.msg != WM_WINDOWPOSCHANGING && message.msg
            != WM_SHOWWINDOW && message.msg != WM_DESTROY,
{
    let flags = message.position->0;
    assert(flags & 0x0040 == 0x0040 <==> flags & 0x0040 != 0) by (bit_vector);
    assert(flags & 0x0080 == 0x0080 <==> flags & 0x0080 != 0) by (bit_vector);
}

/// Only the two visibility flags of a position change matter, and none of its other
/// flags, nor anything else that comes with it.
pub proof fn law_other_flags_do_not_matter(a: Message, b: Message)
    requires
        a.msg == WM_WINDOWPOSCHANGING,
        b.msg == WM_WINDOWPOSCHANGING,
        a.position is Some,
        b.position is Some,
        a.position->0 & (SWP_SHOWWINDOW | SWP_HIDEWINDOW) == b.position->0 & (SWP_SHOWWINDOW
            | SWP_HIDEWINDOW),
    ensures
        a.change_spec() == b.change_spec(),
{
    let x = a.position->0;
    let y = b.position->0;
    assert(x & (0x0040u32 | 0x0080u32) == y & (0x0040u32 | 0x0080u32) ==> x & 0x0040u32 == y & 0x0040u32 && x & 0x0080u32
        == y & 0x0080u32) by (bit_vector);
}

/// A handled message without an answer goes to the next window procedure as it came;
/// one with an answer returns it; and what the next procedure returned is returned,
/// whatever it is.
pub proof fn law_conclusion_follows(message: Message, answer: isize, result: isize)
    ensures
        message.conclusion(None, ProcEvent::Handled) == (ProcAction::PassOn {
            hwnd: message.hwnd,
            msg: message.msg,
            wparam: message.wparam,
            lparam: message.lparam,
        }),
        message.conclusion(Some(answer), ProcEvent::Handled) == (ProcAction::Return {
            result: answer,
        }),
        message.conclusion(None, ProcEvent::PassedOn { result }) == (ProcAction::Return { result }),
        message.conclusion(Some(answer), ProcEvent::PassedOn { result }) == (ProcAction::Return {
            result,
        }),
{
}

} // verus!
