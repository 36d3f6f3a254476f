//! What happens when a client leaves and when the server stops.

use vstd::prelude::*;

verus! {

/// Time between measurements of the round trip, in milliseconds.
pub const AUTODETECT_RTT_PROBE_INTERVAL_MS: u64 = 250;

/// What drives the measurements of the round trip.
#[derive(Clone, Copy, Debug, PartialEq, Eq, Structural)]
pub enum ProbeEvent {
    /// The interval passed. `ready` says whether a client's graphics are set up.
    Tick { ready: bool },
    /// A request was handed to the server, or the server is gone.
    Sent { accepted: bool },
    Shutdown,
}

/// What the measurements do next.
#[derive(Clone, Copy, Debug, PartialEq, Eq, Structural)]
pub enum ProbeNext {
    Wait,
    Request,
    Stop,
}

/// One step of measuring the round trip. Without a client nothing is requested.
pub fn autodetect_step(event: ProbeEvent) -> (r: ProbeNext)
    ensures
        r == (match event {
            ProbeEvent::Tick { ready } => if ready {
                ProbeNext::Request
            } else {
                ProbeNext::Wait
            },
            ProbeEvent::Sent { accepted } => if accepted {
                ProbeNext::Wait
            } else {
                ProbeNext::Stop
            },
            ProbeEvent::Shutdown => ProbeNext::Stop,
        }),
{
    match event {
        ProbeEvent::Tick { ready } => if ready {
            ProbeNext::Request
        } else {
            ProbeNext::Wait
        },
        ProbeEvent::Sent { accepted } => if accepted {
            ProbeNext::Wait
        } else {
            ProbeNext::Stop
        },
        ProbeEvent::Shutdown => ProbeNext::Stop,
    }
}

/// Overall state of a session.
#[derive(Clone, Copy, Debug, PartialEq, Eq, Structural)]
pub enum OverallHealth {
    Healthy,
    Degraded,
    Invalid,
}

/// What is known of a session's state.
#[derive(Clone, Copy, Debug, PartialEq, Eq, Structural)]
pub struct SessionHealth {
    /// The compositor destroyed the session.
    pub session_failed: bool,
    pub overall: OverallHealth,
}

/// What is done for a client that left.
#[derive(Clone, Copy, Debug, PartialEq, Eq, Structural)]
pub enum DisconnectStep {
    /// Show the console's cursor again.
    RestoreCursor,
    /// Stop encoding.
    PausePipeline,
    /// Give up what the clipboard holds for the client.
    ReleaseClipboard,
}

/// What is reported when a client has left.
#[derive(Clone, Copy, Debug, PartialEq, Eq, Structural)]
pub enum DisconnectReport {
    Ready,
    /// Something failed, but the session lives: the next client starts it anew.
    SubsystemFailed,
    Degraded,
    /// The session is gone for good.
    SessionDestroyed,
}

/// What to do when a client leaves.
#[derive(Debug)]
pub struct DisconnectPlan {
    pub steps: Vec<DisconnectStep>,
    pub report: DisconnectReport,
    /// Whether another client can be accepted.
    pub accept: bool,
}

/// What is done for a client that left: nothing for one that was never served.
pub open spec fn disconnect_steps(served: bool) -> Seq<DisconnectStep> {
    if served {
        seq![
            DisconnectStep::RestoreCursor,
            DisconnectStep::PausePipeline,
            DisconnectStep::ReleaseClipboard,
        ]
    } else {
        seq![]
    }
}

/// What is reported, given what is known of the session.
pub open spec fn disconnect_report(health: Option<SessionHealth>) -> DisconnectReport {
    match health {
        None => DisconnectReport::Ready,
        Some(h) => if h.session_failed {
            DisconnectReport::SessionDestroyed
        } else {
            match h.overall {
                OverallHealth::Invalid => DisconnectReport::SubsystemFailed,
                OverallHealth::Degraded => DisconnectReport::Degraded,
                OverallHealth::Healthy => DisconnectReport::Ready,
            }
        },
    }
}

/// A client left. A connection that was never served changes nothing, for another
/// client may be served at the same time. Only a session that the compositor
/// destroyed keeps the server from accepting another client.
pub fn perform_disconnect_cleanup(served: bool, health: Option<SessionHealth>) -> (r:
    DisconnectPlan)
    ensures
        r.steps@ == disconnect_steps(served),
        r.report == disconnect_report(health),
        r.accept == !(health matches Some(h) && h.session_failed),
{
    let mut steps: Vec<DisconnectStep> = Vec::new();
    if served {
        steps.push(DisconnectStep::RestoreCursor);
        steps.push(DisconnectStep::PausePipeline);
        steps.push(DisconnectStep::ReleaseClipboard);
    }
    assert(steps@ =~= disconnect_steps(served));
    match health {
        None => DisconnectPlan { steps, report: DisconnectReport::Ready, accept: true },
        Some(h) => {
            if h.session_failed {
                return DisconnectPlan {
                    steps,
                    report: DisconnectReport::SessionDestroyed,
                    accept: false,
                };
            }
            let report = match h.overall {
                OverallHealth::Invalid => DisconnectReport::SubsystemFailed,
                OverallHealth::Degraded => DisconnectReport::Degraded,
                OverallHealth::Healthy => DisconnectReport::Ready,
            };
            DisconnectPlan { steps, report, accept: true }
        },
    }
}

/// A step of stopping the server.
#[derive(Clone, Copy, Debug, PartialEq, Eq, Structural)]
pub enum CleanupStep {
    /// Say that the server is stopping.
    AnnounceStop,
    /// Tell all tasks to stop.
    BroadcastShutdown,
    /// Give them time to.
    Settle,
    ShutDownClipboard,
    ShutDownCapture,
    ClosePortalSession,
}

/// What of a server is left to clean up.
#[derive(Clone, Copy, Debug, PartialEq, Eq, Structural)]
pub struct LamcoRdpServer {
    pub clipboard: bool,
    pub portal_session: bool,
    pub cleanup_done: bool,
}

impl LamcoRdpServer {
    /// A server that has just been put together.
    pub fn new(clipboard: bool, portal_session: bool) -> (r: LamcoRdpServer)
        ensures
            r == (LamcoRdpServer { clipboard, portal_session, cleanup_done: false }),
    {
        LamcoRdpServer { clipboard, portal_session, cleanup_done: false }
    }

    /// The steps of stopping: the clipboard stops before the capture, and the portal
    /// session closes last, so that nothing uses it any more.
    pub open spec fn cleanup(self) -> Seq<CleanupStep> {
        if self.cleanup_done {
            seq![]
        } else {
            seq![CleanupStep::AnnounceStop, CleanupStep::BroadcastShutdown, CleanupStep::Settle] + (
            if self.clipboard {
                seq![CleanupStep::ShutDownClipboard]
            } else {
                seq![]
            }) + seq![CleanupStep::ShutDownCapture] + (if self.portal_session {
                seq![CleanupStep::ClosePortalSession]
            } else {
                seq![]
            })
        }
    }

    /// Stops the server, once: whoever asks again finds it done.
    pub fn cleanup_resources(&mut self) -> (r: Vec<CleanupStep>)
        ensures
            r@ == old(self).cleanup(),
            *final(self) == (LamcoRdpServer { cleanup_done: true, ..*old(self) }),
    {
        let mut r: Vec<CleanupStep> = Vec::new();
        if self.cleanup_done {
            return r;
        }
        self.cleanup_done = true;
        r.push(CleanupStep::AnnounceStop);
        r.push(CleanupStep::BroadcastShutdown);
        r.push(CleanupStep::Settle);
        if self.clipboard {
            r.push(CleanupStep::ShutDownClipboard);
        }
        r.push(CleanupStep::ShutDownCapture);
        if self.portal_session {
            r.push(CleanupStep::ClosePortalSession);
        }
        assert(r@ =~= old(self).cleanup());
        r
    }
}

/// Whether the steps behind one are taken. A clipboard that fails to stop ends the
/// clean-up with an error; a portal session that fails to close does not.
pub fn cleanup_goes_on(step: CleanupStep, succeeded: bool) -> (r: bool)
    ensures
        r == (succeeded || step != CleanupStep::ShutDownClipboard),
{
    match step {
        CleanupStep::ShutDownClipboard => succeeded,
        _ => true,
    }
}

/// How urgent a notification is.
#[derive(Clone, Copy, Debug, PartialEq, Eq, Structural)]
pub enum NotificationPriority {
    Normal,
    High,
}

/// Whether and how a notification is sent: only from within a sandbox, where the
/// user sees no log.
pub fn portal_notification(sandboxed: bool, high_priority: bool) -> (r: Option<
    NotificationPriority,
>)
    ensures
        r == (if !sandboxed {
            None
        } else if high_priority {
            Some(NotificationPriority::High)
        } else {
            Some(NotificationPriority::Normal)
        }),
{
    if !sandboxed {
        None
    } else if high_priority {
        Some(NotificationPriority::High)
    } else {
        Some(NotificationPriority::Normal)
    }
}

/// Cleaning up twice is cleaning up once: the second time there is nothing to do.
pub proof fn law_cleanup_once(s: LamcoRdpServer)
    ensures
        (LamcoRdpServer { cleanup_done: true, ..s }).cleanup() == Seq::<CleanupStep>::empty(),
{
}

/// The portal session, where there is one, is the last thing to go.
pub proof fn law_portal_session_closes_last(s: LamcoRdpServer)
    requires
        !s.cleanup_done,
    ensures
        s.cleanup().contains(CleanupStep::ClosePortalSession) <==> s.portal_session,
        s.portal_session ==> s.cleanup().last() == CleanupStep::ClosePortalSession,
{
    let steps = s.cleanup();
    if s.portal_session {
        assert(steps[steps.len() - 1] == CleanupStep::ClosePortalSession);
    } else {
        assert forall|i: int| 0 <= i < steps.len() implies steps[i]
            != CleanupStep::ClosePortalSession by {
        }
    }
}

/// A client that was served leaves nothing of its own behind: the cursor is shown before
/// encoding stops, and the clipboard is released last. One that was not changes nothing.
pub proof fn law_served_client_is_cleaned_up(step: DisconnectStep)
    ensures
        disconnect_steps(true).contains(step),
        disconnect_steps(true).len() == 3,
        disconnect_steps(true).first() == DisconnectStep::RestoreCursor,
        disconnect_steps(true).last() == DisconnectStep::ReleaseClipboard,
        !disconnect_steps(false).contains(step),
{
    let s = disconnect_steps(true);
    assert(s[0] == DisconnectStep::RestoreCursor && s[1] == DisconnectStep::PausePipeline && s[2]
        == DisconnectStep::ReleaseClipboard);
}

/// A destroyed session is reported before anything else; one that lives is reported by
/// its overall state, and one of which nothing is known is ready.
pub proof fn law_disconnect_report(h: SessionHealth)
    ensures
        disconnect_report(None) == DisconnectReport::Ready,
        disconnect_report(Some(h)) == DisconnectReport::SessionDestroyed <==> h.session_failed,
        !h.session_failed ==> (disconnect_report(Some(h)) == DisconnectReport::Ready <==> h.overall
            == OverallHealth::Healthy) && (disconnect_report(Some(h))
            == DisconnectReport::Degraded <==> h.overall == OverallHealth::Degraded),
{
}

/// Stopping announces itself, tells the tasks and lets them settle before anything is shut
/// down; the capture is shut down in any case, and the clipboard, where there is one,
/// before it.
pub proof fn law_order_of_stopping(s: LamcoRdpServer)
    requires
        !s.cleanup_done,
    ensures
        s.cleanup().len() == 4 + (if s.clipboard {
            1int
        } else {
            0
        }) + (if s.portal_session {
            1int
        } else {
            0
        }),
        s.cleanup()[0] == CleanupStep::AnnounceStop,
        s.cleanup()[1] == CleanupStep::BroadcastShutdown,
        s.cleanup()[2] == CleanupStep::Settle,
        s.clipboard ==> s.cleanup()[3] == CleanupStep::ShutDownClipboard && s.cleanup()[4]
            == CleanupStep::ShutDownCapture,
        !s.clipboard ==> s.cleanup()[3] == CleanupStep::ShutDownCapture,
{
}

} // verus!
