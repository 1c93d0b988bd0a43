//! The life of one connection attempt, as a machine that a driver feeds
//! with what happened on the network and that answers with what to do
//! next.

use crate::outcome::classify_read;
use crate::outcome::status_of_read;
use crate::outcome::utf8_lossy;
use crate::outcome::ScanOutcome;
use crate::outcome::ScanStatus;
use crate::outcome::StatusView;
use vstd::prelude::*;

verus! {

/// Where an attempt stands.
#[derive(Clone, Copy, Debug, PartialEq, Eq, Structural)]
pub enum Phase {
    /// Submitted, waiting to be admitted.
    Pending,
    /// Admitted; the connection is being opened.
    Connecting,
    /// Connected; the payload is being written.
    Sending,
    /// The payload was handed over; one read is under way.
    ReadingBanner,
    /// The port was found open and reported.
    Done,
    /// The connection was not made in time; reported as closed or filtered.
    TimedOut,
    /// The connection was refused or failed; reported as closed or filtered.
    ConnectFailed,
}

/// What the driver tells an attempt.
#[derive(Clone, Debug, PartialEq, Eq)]
pub enum Event {
    /// The attempt may start.
    Admitted,
    /// The connection was made within the time allowed.
    ConnectSucceeded,
    /// The connection was refused or failed otherwise.
    ConnectFailed,
    /// The time allowed for connecting ran out.
    ConnectTimedOut,
    /// The payload was written.
    PayloadSent,
    /// Writing the payload failed.
    PayloadFailed,
    /// The read returned these bytes, possibly none, within the time
    /// allowed.
    BannerRead(Vec<u8>),
    /// The read failed.
    ReadFailed,
    /// The time allowed for the read ran out.
    ReadTimedOut,
}

/// What an attempt asks of the driver.
#[derive(Clone, Debug, PartialEq, Eq)]
pub enum Action {
    /// Open the connection, within the time allowed.
    Connect,
    /// Write the payload to the connection.
    SendPayload,
    /// Read once from the connection, within the time allowed.
    ReadBanner,
    /// The attempt is over: close the connection if there is one, give the
    /// slot back and deliver this outcome.
    Report(ScanOutcome),
    /// The event does not concern the attempt as it stands.
    Nothing,
}

/// The mathematical content of an [`Action`].
pub ghost enum ActionView {
    Connect,
    SendPayload,
    ReadBanner,
    Report(u16, StatusView),
    Nothing,
}

impl View for Action {
    type V = ActionView;

    open spec fn view(&self) -> ActionView {
        match self {
            Action::Connect => ActionView::Connect,
            Action::SendPayload => ActionView::SendPayload,
            Action::ReadBanner => ActionView::ReadBanner,
            Action::Report(outcome) => ActionView::Report(outcome.port, outcome.status@),
            Action::Nothing => ActionView::Nothing,
        }
    }
}

/// Whether an attempt in this phase is over.
pub open spec fn is_final(phase: Phase) -> bool {
    phase == Phase::Done || phase == Phase::TimedOut || phase == Phase::ConnectFailed
}

/// The phase that follows `phase` on `event`. An event that does not fit
/// the phase leaves it as it is.
pub open spec fn next_phase(phase: Phase, event: Event) -> Phase {
    match (phase, event) {
        (Phase::Pending, Event::Admitted) => Phase::Connecting,
        (Phase::Connecting, Event::ConnectSucceeded) => Phase::Sending,
        (Phase::Connecting, Event::ConnectFailed) => Phase::ConnectFailed,
        (Phase::Connecting, Event::ConnectTimedOut) => Phase::TimedOut,
        (Phase::Sending, Event::PayloadSent) => Phase::ReadingBanner,
        (Phase::Sending, Event::PayloadFailed) => Phase::ReadingBanner,
        (Phase::ReadingBanner, Event::BannerRead(_)) => Phase::Done,
        (Phase::ReadingBanner, Event::ReadFailed) => Phase::Done,
        (Phase::ReadingBanner, Event::ReadTimedOut) => Phase::Done,
        _ => phase,
    }
}

/// What the attempt on `port` asks for when `event` arrives in `phase`.
///
/// A failed write is passed over: the read follows all the same. A read
/// that brought at least one byte makes a banner; an empty read, a failed
/// one and one that ran out of time make none. A connection that was not
/// made, for whatever reason, is reported as closed or filtered.
pub open spec fn action_for(port: u16, phase: Phase, event: Event) -> ActionView {
    match (phase, event) {
        (Phase::Pending, Event::Admitted) => ActionView::Connect,
        (Phase::Connecting, Event::ConnectSucceeded) => ActionView::SendPayload,
        (Phase::Connecting, Event::ConnectFailed) => ActionView::Report(
            port,
            StatusView::ClosedOrFiltered,
        ),
        (Phase::Connecting, Event::ConnectTimedOut) => ActionView::Report(
            port,
            StatusView::ClosedOrFiltered,
        ),
        (Phase::Sending, Event::PayloadSent) => ActionView::ReadBanner,
        (Phase::Sending, Event::PayloadFailed) => ActionView::ReadBanner,
        (Phase::ReadingBanner, Event::BannerRead(bytes)) => ActionView::Report(
            port,
            status_of_read(bytes@),
        ),
        (Phase::ReadingBanner, Event::ReadFailed) => ActionView::Report(
            port,
            StatusView::OpenNoBanner,
        ),
        (Phase::ReadingBanner, Event::ReadTimedOut) => ActionView::Report(
            port,
            StatusView::OpenNoBanner,
        ),
        _ => ActionView::Nothing,
    }
}

/// The phase that an attempt reaches from `phase` when `events` arrive in
/// order.
pub open spec fn phase_after(phase: Phase, events: Seq<Event>) -> Phase
    decreases events.len(),
{
    if events.len() == 0 {
        phase
    } else {
        next_phase(phase_after(phase, events.drop_last()), events.last())
    }
}

/// The actions that the attempt on `port` asks for, one per event, when
/// `events` arrive in order from `phase` on.
pub open spec fn actions_for(port: u16, phase: Phase, events: Seq<Event>) -> Seq<ActionView>
    decreases events.len(),
{
    if events.len() == 0 {
        Seq::<ActionView>::empty()
    } else {
        actions_for(port, phase, events.drop_last()).push(
            action_for(port, phase_after(phase, events.drop_last()), events.last()),
        )
    }
}

/// A connection that is made and answers with at least one byte in time
/// is reported as open with that answer as its banner, whether or not the
/// payload could be written.
pub proof fn lemma_answer_in_time_is_banner(port: u16, written: Event, bytes: Vec<u8>)
    requires
        written == Event::PayloadSent || written == Event::PayloadFailed,
        bytes@.len() > 0,
    ensures
        ({
            let events = seq![
                Event::Admitted,
                Event::ConnectSucceeded,
                written,
                Event::BannerRead(bytes),
            ];
            &&& phase_after(Phase::Pending, events) == Phase::Done
            &&& actions_for(port, Phase::Pending, events) == seq![
                ActionView::Connect,
                ActionView::SendPayload,
                ActionView::ReadBanner,
                ActionView::Report(port, StatusView::OpenWithBanner(utf8_lossy(bytes@))),
            ]
        }),
{
    let events = seq![Event::Admitted, Event::ConnectSucceeded, written, Event::BannerRead(bytes)];
    let e3 = events.drop_last();
    let e2 = e3.drop_last();
    let e1 = e2.drop_last();
    let e0 = e1.drop_last();
    assert(e0.len() == 0);
    assert(phase_after(Phase::Pending, e0) == Phase::Pending);
    assert(phase_after(Phase::Pending, e1) == Phase::Connecting);
    assert(phase_after(Phase::Pending, e2) == Phase::Sending);
    assert(phase_after(Phase::Pending, e3) == Phase::ReadingBanner);
    assert(actions_for(port, Phase::Pending, e0) =~= Seq::<ActionView>::empty());
    assert(actions_for(port, Phase::Pending, e1) =~= seq![ActionView::Connect]);
    assert(actions_for(port, Phase::Pending, e2) =~= seq![
        ActionView::Connect,
        ActionView::SendPayload,
    ]);
    assert(actions_for(port, Phase::Pending, e3) =~= seq![
        ActionView::Connect,
        ActionView::SendPayload,
        ActionView::ReadBanner,
    ]);
    assert(actions_for(port, Phase::Pending, events) =~= seq![
        ActionView::Connect,
        ActionView::SendPayload,
        ActionView::ReadBanner,
        ActionView::Report(port, StatusView::OpenWithBanner(utf8_lossy(bytes@))),
    ]);
}

/// A connection that is made but whose read brings nothing, be it that it
/// ran out of time, failed or returned no byte, is reported as open
/// without a banner.
pub proof fn lemma_silent_peer_is_open(port: u16, written: Event, read: Event)
    requires
        written == Event::PayloadSent || written == Event::PayloadFailed,
        read == Event::ReadTimedOut || read == Event::ReadFailed || (read matches Event::BannerRead(
            bytes,
        ) && bytes@.len() == 0),
    ensures
        ({
            let events = seq![Event::Admitted, Event::ConnectSucceeded, written, read];
            &&& phase_after(Phase::Pending, events) == Phase::Done
            &&& actions_for(port, Phase::Pending, events) == seq![
                ActionView::Connect,
                ActionView::SendPayload,
                ActionView::ReadBanner,
                ActionView::Report(port, StatusView::OpenNoBanner),
            ]
        }),
{
    let events = seq![Event::Admitted, Event::ConnectSucceeded, written, read];
    let e3 = events.drop_last();
    let e2 = e3.drop_last();
    let e1 = e2.drop_last();
    let e0 = e1.drop_last();
    assert(e0.len() == 0);
    assert(phase_after(Phase::Pending, e0) == Phase::Pending);
    assert(phase_after(Phase::Pending, e1) == Phase::Connecting);
    assert(phase_after(Phase::Pending, e2) == Phase::Sending);
    assert(phase_after(Phase::Pending, e3) == Phase::ReadingBanner);
    assert(actions_for(port, Phase::Pending, e0) =~= Seq::<ActionView>::empty());
    assert(actions_for(port, Phase::Pending, e1) =~= seq![ActionView::Connect]);
    assert(actions_for(port, Phase::Pending, e2) =~= seq![
        ActionView::Connect,
        ActionView::SendPayload,
    ]);
    assert(actions_for(port, Phase::Pending, e3) =~= seq![
        ActionView::Connect,
        ActionView::SendPayload,
        ActionView::ReadBanner,
    ]);
    assert(actions_for(port, Phase::Pending, events) =~= seq![
        ActionView::Connect,
        ActionView::SendPayload,
        ActionView::ReadBanner,
        ActionView::Report(port, StatusView::OpenNoBanner),
    ]);
}

/// A connection that is not made, because it was refused or because no
/// answer came in time, is reported as closed or filtered, and the attempt
/// is over.
pub proof fn lemma_no_connection_is_closed(port: u16, connect: Event)
    requires
        connect == Event::ConnectFailed || connect == Event::ConnectTimedOut,
    ensures
        ({
            let events = seq![Event::Admitted, connect];
            &&& is_final(phase_after(Phase::Pending, events))
            &&& actions_for(port, Phase::Pending, events) == seq![
                ActionView::Connect,
                ActionView::Report(port, StatusView::ClosedOrFiltered),
            ]
        }),
{
    let events = seq![Event::Admitted, connect];
    let e1 = events.drop_last();
    let e0 = e1.drop_last();
    assert(e0.len() == 0);
    assert(phase_after(Phase::Pending, e0) == Phase::Pending);
    assert(phase_after(Phase::Pending, e1) == Phase::Connecting);
    assert(actions_for(port, Phase::Pending, e0) =~= Seq::<ActionView>::empty());
    assert(actions_for(port, Phase::Pending, e1) =~= seq![ActionView::Connect]);
    assert(actions_for(port, Phase::Pending, events) =~= seq![
        ActionView::Connect,
        ActionView::Report(port, StatusView::ClosedOrFiltered),
    ]);
}

/// How far an attempt has come: the number of steps behind it, where an
/// attempt that is over counts as having taken all four.
pub open spec fn progress(phase: Phase) -> nat {
    match phase {
        Phase::Pending => 0,
        Phase::Connecting => 1,
        Phase::Sending => 2,
        Phase::ReadingBanner => 3,
        Phase::Done => 4,
        Phase::TimedOut => 4,
        Phase::ConnectFailed => 4,
    }
}

/// No event sets an attempt back, and the attempt asks for something
/// exactly when the event takes it further. So an attempt asks at most
/// four times, and for each of the two timed operations, the connect and
/// the read, at most once.
pub proof fn lemma_steps_forward(port: u16, phase: Phase, event: Event)
    ensures
        progress(phase) <= progress(next_phase(phase, event)) <= 4,
        action_for(port, phase, event) != ActionView::Nothing <==> progress(phase) < progress(
            next_phase(phase, event),
        ),
        action_for(port, phase, event) == ActionView::Connect ==> progress(phase) == 0,
        action_for(port, phase, event) == ActionView::ReadBanner ==> progress(phase) == 2,
{
}

/// An attempt reports exactly when it comes to its end, and once it is
/// over no event moves it or makes it report again.
pub proof fn lemma_reports_once(port: u16, phase: Phase, event: Event)
    ensures
        action_for(port, phase, event) is Report <==> !is_final(phase) && is_final(
            next_phase(phase, event),
        ),
        is_final(phase) ==> next_phase(phase, event) == phase && action_for(port, phase, event)
            == ActionView::Nothing,
{
}

/// One connection attempt.
#[derive(Clone, Debug, PartialEq, Eq)]
pub struct Attempt {
    port: u16,
    phase: Phase,
}

impl Attempt {
    /// The port that the attempt is made on.
    pub closed spec fn spec_port(&self) -> u16 {
        self.port
    }

    /// Where the attempt stands.
    pub closed spec fn spec_phase(&self) -> Phase {
        self.phase
    }

    /// A submitted attempt on `port`.
    pub fn new(port: u16) -> (attempt: Attempt)
        ensures
            attempt.spec_port() == port,
            attempt.spec_phase() == Phase::Pending,
    {
        Attempt { port, phase: Phase::Pending }
    }

    /// The port that the attempt is made on.
    #[verifier::when_used_as_spec(spec_port)]
    pub fn port(&self) -> (port: u16)
        ensures
            port == self.spec_port(),
    {
        self.port
    }

    /// Where the attempt stands.
    #[verifier::when_used_as_spec(spec_phase)]
    pub fn phase(&self) -> (phase: Phase)
        ensures
            phase == self.spec_phase(),
    {
        self.phase
    }

    /// Whether the attempt is over.
    pub fn is_over(&self) -> (over: bool)
        ensures
            over == is_final(self.spec_phase()),
    {
        match self.phase {
            Phase::Done | Phase::TimedOut | Phase::ConnectFailed => true,
            _ => false,
        }
    }

    /// Takes note of `event` and says what to do next.
    pub fn step(&mut self, event: Event) -> (action: Action)
        ensures
            final(self).spec_port() == old(self).spec_port(),
            final(self).spec_phase() == next_phase(old(self).spec_phase(), event),
            action@ == action_for(old(self).spec_port(), old(self).spec_phase(), event),
    {
        let port: u16 = self.port;
        match (self.phase, event) {
            (Phase::Pending, Event::Admitted) => {
                self.phase = Phase::Connecting;
                Action::Connect
            },
            (Phase::Connecting, Event::ConnectSucceeded) => {
                self.phase = Phase::Sending;
                Action::SendPayload
            },
            (Phase::Connecting, Event::ConnectFailed) => {
                self.phase = Phase::ConnectFailed;
                Action::Report(ScanOutcome { port, status: ScanStatus::ClosedOrFiltered })
            },
            (Phase::Connecting, Event::ConnectTimedOut) => {
                self.phase = Phase::TimedOut;
                Action::Report(ScanOutcome { port, status: ScanStatus::ClosedOrFiltered })
            },
            (Phase::Sending, Event::PayloadSent) => {
                self.phase = Phase::ReadingBanner;
                Action::ReadBanner
            },
            (Phase::Sending, Event::PayloadFailed) => {
                self.phase = Phase::ReadingBanner;
                Action::ReadBanner
            },
            (Phase::ReadingBanner, Event::BannerRead(bytes)) => {
                self.phase = Phase::Done;
                Action::Report(ScanOutcome { port, status: classify_read(bytes.as_slice()) })
            },
            (Phase::ReadingBanner, Event::ReadFailed) => {
                self.phase = Phase::Done;
                Action::Report(ScanOutcome { port, status: ScanStatus::OpenNoBanner })
            },
            (Phase::ReadingBanner, Event::ReadTimedOut) => {
                self.phase = Phase::Done;
                Action::Report(ScanOutcome { port, status: ScanStatus::OpenNoBanner })
            },
            _ => Action::Nothing,
        }
    }
}

} // verus!
