//! The stop and restart requests that end a capture session.

use vstd::prelude::*;

verus! {

/// A request made of a running tracker.
#[derive(Debug, Clone, Copy, PartialEq, Eq, Structural)]
pub enum ControlRequest {
    Restart,
    Stop,
}

/// The flags, restart then stop, after the request `q` with flags `f`:
/// a restart sets both, a stop sets the stop flag only.
pub open spec fn request_step(f: (bool, bool), q: ControlRequest) -> (bool, bool) {
    match q {
        ControlRequest::Restart => (true, true),
        ControlRequest::Stop => (f.0, true),
    }
}

/// The flags after the requests `qs`, in order, from a fresh session.
pub open spec fn flags_after(qs: Seq<ControlRequest>) -> (bool, bool)
    decreases qs.len(),
{
    if qs.len() == 0 {
        (false, false)
    } else {
        request_step(flags_after(qs.drop_last()), qs.last())
    }
}

/// After any requests, a restart is due exactly when a restart was
/// requested at least once, whatever stops came before or after it, and
/// the capture stops exactly when anything was requested.
pub proof fn lemma_restart_iff_requested(qs: Seq<ControlRequest>)
    ensures
        flags_after(qs).0 == qs.contains(ControlRequest::Restart),
        flags_after(qs).1 == (qs.len() > 0),
    decreases qs.len(),
{
    if qs.len() > 0 {
        lemma_restart_iff_requested(qs.drop_last());
        let rest = qs.drop_last();
        if rest.contains(ControlRequest::Restart) {
            let j = choose|j: int| 0 <= j < rest.len() && rest[j] == ControlRequest::Restart;
            assert(qs[j] == ControlRequest::Restart);
        }
        if qs.contains(ControlRequest::Restart) && qs.last() != ControlRequest::Restart {
            let j = choose|j: int| 0 <= j < qs.len() && qs[j] == ControlRequest::Restart;
            assert(rest[j] == ControlRequest::Restart);
        }
        if qs.last() == ControlRequest::Restart {
            assert(qs[qs.len() - 1] == ControlRequest::Restart);
        }
    }
}

/// The shutdown flags of a running tracker. A restart is a stop that
/// asks for the program to be started again, so a requested restart
/// always comes with a requested stop. The flags are always those that
/// the requests made so far give.
pub struct CaptureControl {
    restart: bool,
    stop: bool,
    requests: Ghost<Seq<ControlRequest>>,
}

impl CaptureControl {
    /// Whether a restart was requested.
    pub closed spec fn restart_requested(self) -> bool {
        self.restart
    }

    /// Whether the capture loop was asked to stop.
    pub closed spec fn stop_requested(self) -> bool {
        self.stop
    }

    /// The requests made since the session began, in order.
    pub closed spec fn requests(self) -> Seq<ControlRequest> {
        self.requests@
    }

    #[verifier::type_invariant]
    closed spec fn follows_requests(self) -> bool {
        (self.restart, self.stop) == flags_after(self.requests@)
    }

    /// A session in which nothing was requested yet.
    pub fn new() -> (c: Self)
        ensures
            !c.restart_requested(),
            !c.stop_requested(),
            c.requests() == Seq::<ControlRequest>::empty(),
            (c.restart_requested(), c.stop_requested()) == flags_after(c.requests()),
    {
        CaptureControl { restart: false, stop: false, requests: Ghost(Seq::empty()) }
    }

    /// Ask for a restart: the capture stops and the program starts again.
    pub fn signal_restart(&mut self)
        ensures
            final(self).requests() == old(self).requests().push(ControlRequest::Restart),
            final(self).restart_requested(),
            final(self).stop_requested(),
            (final(self).restart_requested(), final(self).stop_requested()) == request_step(
                (old(self).restart_requested(), old(self).stop_requested()),
                ControlRequest::Restart,
            ),
            (final(self).restart_requested(), final(self).stop_requested()) == flags_after(
                final(self).requests(),
            ),
    {
        proof {
            use_type_invariant(&*self);
        }
        let ghost h = self.requests@.push(ControlRequest::Restart);
        assert(h.drop_last() =~= self.requests@);
        *self = CaptureControl { restart: true, stop: true, requests: Ghost(h) };
    }

    /// Ask the capture to stop; a restart asked for earlier stands.
    pub fn signal_stop(&mut self)
        ensures
            final(self).requests() == old(self).requests().push(ControlRequest::Stop),
            final(self).stop_requested(),
            final(self).restart_requested() == old(self).restart_requested(),
            (final(self).restart_requested(), final(self).stop_requested()) == request_step(
                (old(self).restart_requested(), old(self).stop_requested()),
                ControlRequest::Stop,
            ),
            (final(self).restart_requested(), final(self).stop_requested()) == flags_after(
                final(self).requests(),
            ),
    {
        proof {
            use_type_invariant(&*self);
        }
        let ghost h = self.requests@.push(ControlRequest::Stop);
        assert(h.drop_last() =~= self.requests@);
        *self = CaptureControl { restart: self.restart, stop: true, requests: Ghost(h) };
    }

    /// Whether the program should start again once the capture ended:
    /// exactly when a restart was requested at least once so far, whatever
    /// stops came before or after it. A requested restart always comes
    /// with a requested stop.
    pub fn should_restart(&self) -> (r: bool)
        ensures
            r == self.restart_requested(),
            r == self.requests().contains(ControlRequest::Restart),
            r ==> self.stop_requested(),
    {
        proof {
            use_type_invariant(self);
            lemma_restart_iff_requested(self.requests@);
        }
        self.restart
    }

    /// Whether the capture loop should end.
    pub fn should_stop(&self) -> (r: bool)
        ensures
            r == self.stop_requested(),
            r == (self.requests().len() > 0),
    {
        proof {
            use_type_invariant(self);
            lemma_restart_iff_requested(self.requests@);
        }
        self.stop
    }

}

/// Window message of raw input (the touchpad's reports).
pub const WM_INPUT: u32 = 0x00FF;
/// Window message sent when the window is destroyed.
pub const WM_DESTROY: u32 = 0x0002;
/// Window message of a menu command.
pub const WM_COMMAND: u32 = 0x0111;
/// Mouse message of a released right button.
pub const WM_RBUTTONUP: u32 = 0x0205;
/// Message of the tray icon.
pub const WM_TRAYICON: u32 = 0x8001;
/// Message that asks the tray window for a restart.
pub const WM_APP_RESTART: u32 = 0x8002;
/// Message that asks the tray window to stop.
pub const WM_APP_STOP: u32 = 0x8003;
/// Menu command: open the dashboard.
pub const IDM_DASHBOARD: usize = 1001;
/// Menu command: restart the tracker.
pub const IDM_RESTART: usize = 1002;
/// Menu command: exit.
pub const IDM_EXIT: usize = 1003;

/// What the tray window does with a message.
#[derive(Debug, Clone, Copy, PartialEq, Eq, Structural)]
pub enum TrayAction {
    /// Read the raw input report and update the touchpad contacts.
    ReadRawInput,
    /// Show the tray menu.
    ShowMenu,
    /// Open the dashboard in the browser.
    OpenDashboard,
    /// Request a restart and close the window, which ends the capture.
    Restart,
    /// Close the window, which ends the capture.
    Close,
    /// Remove the tray icon and end the message loop.
    Quit,
    /// Nothing more to do; the message is handled.
    Handled,
    /// Leave the message to the default window procedure.
    Default,
}

/// The action of the tray window for a message.
pub open spec fn tray_action_spec(msg: u32, wparam: usize, lparam: isize) -> TrayAction {
    if msg == WM_INPUT {
        TrayAction::ReadRawInput
    } else if msg == WM_TRAYICON {
        if ((lparam & 0xFFFF) as u32) == WM_RBUTTONUP {
            TrayAction::ShowMenu
        } else {
            TrayAction::Handled
        }
    } else if msg == WM_COMMAND {
        let id = wparam & 0xFFFF;
        if id == IDM_DASHBOARD {
            TrayAction::OpenDashboard
        } else if id == IDM_RESTART {
            TrayAction::Restart
        } else if id == IDM_EXIT {
            TrayAction::Close
        } else {
            TrayAction::Handled
        }
    } else if msg == WM_APP_RESTART {
        TrayAction::Restart
    } else if msg == WM_APP_STOP {
        TrayAction::Close
    } else if msg == WM_DESTROY {
        TrayAction::Quit
    } else {
        TrayAction::Default
    }
}

/// The action of the tray window for a message.
pub fn tray_action(msg: u32, wparam: usize, lparam: isize) -> (a: TrayAction)
    ensures
        a == tray_action_spec(msg, wparam, lparam),
{
    if msg == WM_INPUT {
        TrayAction::ReadRawInput
    } else if msg == WM_TRAYICON {
        if ((lparam & 0xFFFF) as u32) == WM_RBUTTONUP {
            TrayAction::ShowMenu
        } else {
            TrayAction::Handled
        }
    } else if msg == WM_COMMAND {
        let id = wparam & 0xFFFF;
        if id == IDM_DASHBOARD {
            TrayAction::OpenDashboard
        } else if id == IDM_RESTART {
            TrayAction::Restart
        } else if id == IDM_EXIT {
            TrayAction::Close
        } else {
            TrayAction::Handled
        }
    } else if msg == WM_APP_RESTART {
        TrayAction::Restart
    } else if msg == WM_APP_STOP {
        TrayAction::Close
    } else if msg == WM_DESTROY {
        TrayAction::Quit
    } else {
        TrayAction::Default
    }
}

} // verus!
