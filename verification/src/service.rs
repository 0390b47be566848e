//! The life cycle of the background service: the status that is reported to
//! the host's service manager, and what each event does to it. The caller
//! registers with the host, runs the listener and reports; the decisions are
//! taken here.

use vstd::prelude::*;

verus! {

/// The name under which the service registers with the host.
pub const SERVICE_NAME: &'static str = "dragon_companion";

/// The status of the service as the host sees it.
#[derive(Clone, Copy, Debug, PartialEq, Eq, Structural)]
pub enum ServiceStatus {
    /// Registered; the listener is not bound yet.
    StartPending,
    /// The listener is bound and serves.
    Running,
    /// A stop was asked for; the listener drains.
    StopPending,
    /// The listener has ended.
    Stopped,
}

/// A request from the host's service manager.
#[derive(Clone, Copy, Debug, PartialEq, Eq, Structural)]
pub enum ControlEvent {
    /// Stop the service.
    Stop,
    /// Report the current status.
    Interrogate,
    /// Any other request.
    Other,
}

/// The answer to a request of the host.
#[derive(Clone, Copy, Debug, PartialEq, Eq, Structural)]
pub enum ControlAck {
    /// The request was taken.
    NoError,
    /// The service does not implement the request.
    NotImplemented,
}

/// What happens to a service.
#[derive(Clone, Copy, Debug, PartialEq, Eq, Structural)]
pub enum ServiceEvent {
    /// The listener is bound and has begun to serve.
    Bound,
    /// The host sent a request.
    Control(ControlEvent),
    /// The listener has ended: it has drained after a stop, it ended by
    /// itself, or it could not be started.
    ListenerEnded,
}

/// What the caller has to do after an event.
#[derive(Clone, Copy, Debug, PartialEq, Eq, Structural)]
pub struct Outcome {
    /// The status after the event.
    pub status: ServiceStatus,
    /// Whether the status has changed, so that it has to be reported to the
    /// host before anything else is done.
    pub report: bool,
    /// Whether the listener has to be woken to stop accepting and drain.
    pub wake_listener: bool,
    /// The answer to the host.
    pub ack: ControlAck,
}

/// What the host is told of a status.
#[derive(Clone, Copy, Debug, PartialEq, Eq, Structural)]
pub struct StatusReport {
    /// The status.
    pub status: ServiceStatus,
    /// Whether the service takes a stop request in this status.
    pub accepts_stop: bool,
    /// The exit code; it is zero in every status.
    pub exit_code: u32,
}

/// The place of a status in the life of a service.
pub open spec fn rank(status: ServiceStatus) -> nat {
    match status {
        ServiceStatus::StartPending => 0,
        ServiceStatus::Running => 1,
        ServiceStatus::StopPending => 2,
        ServiceStatus::Stopped => 3,
    }
}

/// The status after an event. A service that starts becomes running once
/// its listener is bound. A stop request moves a service that starts or runs
/// to the pending stop. The end of the listener stops the service. Nothing
/// else changes the status, and nothing changes it once it is stopped.
pub open spec fn next_status(status: ServiceStatus, event: ServiceEvent) -> ServiceStatus {
    match (status, event) {
        (ServiceStatus::Stopped, _) => ServiceStatus::Stopped,
        (_, ServiceEvent::ListenerEnded) => ServiceStatus::Stopped,
        (ServiceStatus::StartPending, ServiceEvent::Bound) => ServiceStatus::Running,
        (ServiceStatus::StartPending, ServiceEvent::Control(ControlEvent::Stop)) => {
            ServiceStatus::StopPending
        },
        (ServiceStatus::Running, ServiceEvent::Control(ControlEvent::Stop)) => {
            ServiceStatus::StopPending
        },
        _ => status,
    }
}

/// Whether an event wakes the listener: a stop request does, while the
/// service starts or runs.
pub open spec fn wakes_listener(status: ServiceStatus, event: ServiceEvent) -> bool {
    event == ServiceEvent::Control(ControlEvent::Stop) && (status == ServiceStatus::StartPending
        || status == ServiceStatus::Running)
}

/// The answer to an event: only a request that is neither a stop nor an
/// interrogation is not implemented.
pub open spec fn ack_of(event: ServiceEvent) -> ControlAck {
    if event == ServiceEvent::Control(ControlEvent::Other) {
        ControlAck::NotImplemented
    } else {
        ControlAck::NoError
    }
}

/// What an event in a status asks of the caller.
pub open spec fn outcome_of(status: ServiceStatus, event: ServiceEvent) -> Outcome {
    Outcome {
        status: next_status(status, event),
        report: next_status(status, event) != status,
        wake_listener: wakes_listener(status, event),
        ack: ack_of(event),
    }
}

/// The report of a status: a stop is taken only while the service runs.
pub open spec fn report_of(status: ServiceStatus) -> StatusReport {
    StatusReport { status, accepts_stop: status == ServiceStatus::Running, exit_code: 0 }
}

/// The status after a run of events.
pub open spec fn status_after(status: ServiceStatus, events: Seq<ServiceEvent>) -> ServiceStatus
    decreases events.len(),
{
    if events.len() == 0 {
        status
    } else {
        next_status(status_after(status, events.drop_last()), events.last())
    }
}

/// How often the listener is woken in a run of events.
pub open spec fn wakes_in(status: ServiceStatus, events: Seq<ServiceEvent>) -> nat
    decreases events.len(),
{
    if events.len() == 0 {
        0
    } else {
        let before = events.drop_last();
        wakes_in(status, before) + if wakes_listener(status_after(status, before), events.last()) {
            1nat
        } else {
            0nat
        }
    }
}

/// The statuses that a run of events has reported to the host, in order.
pub open spec fn reports_in(status: ServiceStatus, events: Seq<ServiceEvent>) -> Seq<
    ServiceStatus,
>
    decreases events.len(),
{
    if events.len() == 0 {
        Seq::empty()
    } else {
        let before = events.drop_last();
        let outcome = outcome_of(status_after(status, before), events.last());
        if outcome.report {
            reports_in(status, before).push(outcome.status)
        } else {
            reports_in(status, before)
        }
    }
}

/// The service as its controller knows it.
pub struct ServiceController {
    status: ServiceStatus,
}

impl View for ServiceController {
    type V = ServiceStatus;

    closed spec fn view(&self) -> ServiceStatus {
        self.status
    }
}

impl ServiceController {
    /// The controller of a service that has registered and not yet bound
    /// its listener.
    pub fn new() -> (controller: Self)
        ensures
            controller@ == ServiceStatus::StartPending,
    {
        ServiceController { status: ServiceStatus::StartPending }
    }

    /// The current status.
    pub fn status(&self) -> (status: ServiceStatus)
        ensures
            status == self@,
    {
        self.status
    }

    /// Takes an event and says what the caller has to do.
    pub fn handle(&mut self, event: ServiceEvent) -> (outcome: Outcome)
        ensures
            outcome == outcome_of(old(self)@, event),
            final(self)@ == next_status(old(self)@, event),
    {
        let before = self.status;
        let stop = match event {
            ServiceEvent::Control(ControlEvent::Stop) => true,
            _ => false,
        };
        let wake_listener = stop && match before {
            ServiceStatus::StartPending | ServiceStatus::Running => true,
            _ => false,
        };
        let after = match before {
            ServiceStatus::Stopped => ServiceStatus::Stopped,
            _ => match event {
                ServiceEvent::ListenerEnded => ServiceStatus::Stopped,
                ServiceEvent::Bound => match before {
                    ServiceStatus::StartPending => ServiceStatus::Running,
                    _ => before,
                },
                ServiceEvent::Control(_) => if wake_listener {
                    ServiceStatus::StopPending
                } else {
                    before
                },
            },
        };
        let ack = match event {
            ServiceEvent::Control(ControlEvent::Other) => ControlAck::NotImplemented,
            _ => ControlAck::NoError,
        };
        self.status = after;
        Outcome { status: after, report: after != before, wake_listener, ack }
    }
}

/// What the host is told of `status`.
pub fn status_report(status: ServiceStatus) -> (report: StatusReport)
    ensures
        report == report_of(status),
{
    StatusReport { status, accepts_stop: status == ServiceStatus::Running, exit_code: 0 }
}

/// The status never moves back.
pub proof fn lemma_status_moves_forward(status: ServiceStatus, event: ServiceEvent)
    ensures
        rank(status) <= rank(next_status(status, event)),
{
}

/// A stopped service stays stopped, whatever happens.
pub proof fn lemma_stopped_is_final(events: Seq<ServiceEvent>)
    ensures
        status_after(ServiceStatus::Stopped, events) == ServiceStatus::Stopped,
    decreases events.len(),
{
    if events.len() > 0 {
        lemma_stopped_is_final(events.drop_last());
    }
}

/// An interrogation and a request that is not implemented leave the status
/// as it is.
pub proof fn lemma_only_stop_changes_status(status: ServiceStatus, control: ControlEvent)
    requires
        control != ControlEvent::Stop,
    ensures
        next_status(status, ServiceEvent::Control(control)) == status,
        !wakes_listener(status, ServiceEvent::Control(control)),
{
}

/// However many stop requests arrive, the listener is woken at most once;
/// once it was woken, the service is past running.
pub proof fn lemma_listener_woken_once(status: ServiceStatus, events: Seq<ServiceEvent>)
    ensures
        wakes_in(status, events) <= 1,
        wakes_in(status, events) == 1 ==> rank(status_after(status, events)) >= 2,
        rank(status) >= 2 ==> wakes_in(status, events) == 0,
        rank(status) <= rank(status_after(status, events)),
    decreases events.len(),
{
    if events.len() > 0 {
        lemma_listener_woken_once(status, events.drop_last());
        lemma_status_moves_forward(status_after(status, events.drop_last()), events.last());
    }
}

/// Each report of a run is of a later status than the one before, so that
/// no status is reported twice; the last report is of the status that the
/// run ends in.
pub proof fn lemma_reports_move_forward(status: ServiceStatus, events: Seq<ServiceEvent>)
    ensures
        forall|i: int, j: int|
            0 <= i < j < reports_in(status, events).len() ==> rank(reports_in(status, events)[i])
                < rank(reports_in(status, events)[j]),
        forall|i: int|
            0 <= i < reports_in(status, events).len() ==> rank(status) < rank(
                #[trigger] reports_in(status, events)[i],
            ) <= rank(status_after(status, events)),
        reports_in(status, events).len() > 0 ==> reports_in(status, events).last()
            == status_after(status, events),
        reports_in(status, events).len() == 0 ==> status_after(status, events) == status,
    decreases events.len(),
{
    if events.len() > 0 {
        let before = events.drop_last();
        lemma_reports_move_forward(status, before);
        lemma_status_moves_forward(status_after(status, before), events.last());
    }
}

} // verus!
