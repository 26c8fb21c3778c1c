use vstd::prelude::*;
use crate::decoder::{decode, decoded, is_held, switch_event, PedalEvent, Switch};

verus! {

/// How long one read of an input report may wait, in milliseconds.
pub const READ_TIMEOUT_MS: u16 = 100;

/// How long to wait before scanning again for the pedal, in milliseconds.
pub const BACKOFF_MS: u64 = 5000;

/// Whether a pedal session is open.
#[derive(Clone, Copy, Debug, PartialEq, Eq, Structural)]
pub enum ConnectionStatus {
    Disconnected,
    Connected,
}

/// What a scan for the pedal came to.
#[derive(Clone, Copy, Debug, PartialEq, Eq, Structural)]
pub enum ScanOutcome {
    /// No attached device carries the pedal's identifiers.
    NotFound,
    /// The pedal is attached but could not be opened.
    OpenFailed,
    /// The pedal was found and opened.
    Opened,
}

/// What one timed read of an input report came to.
#[derive(Clone, Copy, Debug, PartialEq, Eq, Structural)]
pub enum ReadOutcome {
    /// A report arrived; this is its first byte, the button mask.
    Report(u8),
    /// No report arrived within the timeout.
    Timeout,
    /// The read failed: the device went away or the I/O broke.
    Failed,
}

/// What the driving loop is to do next.
#[derive(Clone, Copy, Debug, PartialEq, Eq, Structural)]
pub enum NextStep {
    /// Read one input report, waiting at most this many milliseconds.
    Read { timeout_ms: u16 },
    /// Wait this many milliseconds, then scan for the pedal.
    Rescan { after_ms: u64 },
}

/// The abstract state of a session: its status, the last button mask seen,
/// and the two intervals it schedules with.
pub ghost struct SessionView {
    pub status: ConnectionStatus,
    pub last_mask: u8,
    pub read_timeout_ms: u16,
    pub backoff_ms: u64,
}

/// The connection state machine of the pedal. A host loop performs the
/// scans and reads that it asks for and feeds the outcomes back in; each
/// outcome yields the events to publish, in order, and the next step.
pub struct PedalSession {
    status: ConnectionStatus,
    last_mask: u8,
    read_timeout_ms: u16,
    backoff_ms: u64,
}

/// Events to publish, in order, and the step to take next.
pub struct Reaction {
    pub events: Vec<PedalEvent>,
    pub next: NextStep,
}

impl View for PedalSession {
    type V = SessionView;

    closed spec fn view(&self) -> SessionView {
        SessionView {
            status: self.status,
            last_mask: self.last_mask,
            read_timeout_ms: self.read_timeout_ms,
            backoff_ms: self.backoff_ms,
        }
    }
}

pub open spec fn read_next(s: SessionView) -> NextStep {
    NextStep::Read { timeout_ms: s.read_timeout_ms }
}

pub open spec fn rescan_next(s: SessionView) -> NextStep {
    NextStep::Rescan { after_ms: s.backoff_ms }
}

/// The state a session starts in: disconnected, no switch held.
pub open spec fn initial_session(read_timeout_ms: u16, backoff_ms: u64) -> SessionView {
    SessionView {
        status: ConnectionStatus::Disconnected,
        last_mask: 0,
        read_timeout_ms,
        backoff_ms,
    }
}

/// A scan outcome's effect: new state, events to publish, next step.
/// Opening the pedal from the disconnected state starts a fresh session with
/// no switch held and announces it; otherwise a disconnected session waits
/// and scans again. A connected session is already reading and keeps doing
/// so.
pub open spec fn scan_step(s: SessionView, outcome: ScanOutcome) -> (SessionView, Seq<PedalEvent>, NextStep) {
    if s.status is Connected {
        (s, seq![], read_next(s))
    } else if outcome is Opened {
        (
            SessionView { status: ConnectionStatus::Connected, last_mask: 0, ..s },
            seq![PedalEvent::PedalFound],
            read_next(s),
        )
    } else {
        (s, seq![], rescan_next(s))
    }
}

/// A read outcome's effect: new state, events to publish, next step.
/// A report is decoded against the last mask and becomes the last mask; a
/// timeout changes nothing; a failure ends the session and announces it.
/// A disconnected session has nothing to read and goes back to scanning.
pub open spec fn read_step(s: SessionView, outcome: ReadOutcome) -> (SessionView, Seq<PedalEvent>, NextStep) {
    if s.status is Disconnected {
        (s, seq![], rescan_next(s))
    } else {
        match outcome {
            ReadOutcome::Report(mask) => (
                SessionView { last_mask: mask, ..s },
                decoded(s.last_mask, mask),
                read_next(s),
            ),
            ReadOutcome::Timeout => (s, seq![], read_next(s)),
            ReadOutcome::Failed => (
                SessionView { status: ConnectionStatus::Disconnected, ..s },
                seq![PedalEvent::PedalDisconnected],
                rescan_next(s),
            ),
        }
    }
}

/// Feeding the same report twice in a row: the second one changes nothing
/// and publishes nothing, whatever the first one did.
pub proof fn lemma_repeated_report_is_silent(s: SessionView, mask: u8)
    ensures
        ({
            let after_first = read_step(s, ReadOutcome::Report(mask)).0;
            &&& read_step(after_first, ReadOutcome::Report(mask)).0 == after_first
            &&& read_step(after_first, ReadOutcome::Report(mask)).1 == Seq::<PedalEvent>::empty()
        }),
{
    crate::decoder::lemma_unchanged_mask_is_silent(mask);
}

/// A freshly opened session starts from an all-released mask: opening the
/// pedal announces it, and the first report then yields a press for every
/// switch it shows held.
pub proof fn lemma_fresh_session_starts_released(s: SessionView, mask: u8)
    requires
        s.status is Disconnected,
    ensures
        ({
            let opened = scan_step(s, ScanOutcome::Opened);
            let first = read_step(opened.0, ReadOutcome::Report(mask));
            &&& opened.0.status is Connected
            &&& opened.0.last_mask == 0
            &&& opened.1 == seq![PedalEvent::PedalFound]
            &&& first.1 == decoded(0, mask)
            &&& forall|sw: Switch| is_held(mask, sw) ==> first.1.contains(#[trigger] switch_event(sw, true))
        }),
{
    crate::decoder::lemma_events_in_switch_order(0, mask);
    assert forall|sw: Switch| !is_held(0, sw) by {
        assert(0u8 & 1u8 == 0 && 0u8 & 2u8 == 0 && 0u8 & 4u8 == 0) by (bit_vector);
    }
}

/// A read that times out changes nothing and publishes nothing.
pub proof fn lemma_timeout_changes_nothing(s: SessionView)
    ensures
        read_step(s, ReadOutcome::Timeout).0 == s,
        read_step(s, ReadOutcome::Timeout).1 == Seq::<PedalEvent>::empty(),
{
    assert(read_step(s, ReadOutcome::Timeout).1 =~= Seq::<PedalEvent>::empty());
}

/// A failed read during a session ends it: the status becomes
/// disconnected, exactly one disconnection is announced, and the next step
/// is a scan after the backoff.
pub proof fn lemma_read_failure_disconnects(s: SessionView)
    requires
        s.status is Connected,
    ensures
        read_step(s, ReadOutcome::Failed).0.status is Disconnected,
        read_step(s, ReadOutcome::Failed).1 == seq![PedalEvent::PedalDisconnected],
        read_step(s, ReadOutcome::Failed).2 == (NextStep::Rescan { after_ms: s.backoff_ms }),
{
}

/// The status tracks the announcements: a new session is disconnected, it
/// stays so until a scan opens the pedal, and a step that announces the
/// pedal leaves the session connected.
pub proof fn lemma_status_follows_found(s: SessionView, scan: ScanOutcome, read: ReadOutcome)
    ensures
        forall|t: u16, b: u64| (#[trigger] initial_session(t, b)).status is Disconnected,
        s.status is Disconnected ==> (scan_step(s, scan).0.status is Connected <==> scan is Opened),
        s.status is Disconnected ==> read_step(s, read).0.status is Disconnected,
        scan_step(s, scan).1.contains(PedalEvent::PedalFound) ==> scan_step(s, scan).0.status is Connected,
        !read_step(s, read).1.contains(PedalEvent::PedalFound),
{
    match read {
        ReadOutcome::Report(mask) => crate::decoder::lemma_events_in_switch_order(s.last_mask, mask),
        _ => {},
    }
    if scan_step(s, scan).1.contains(PedalEvent::PedalFound) {
        assert(scan_step(s, scan).1.len() > 0);
    }
    if read_step(s, read).1.contains(PedalEvent::PedalFound) {
        let i = choose|i: int| 0 <= i < read_step(s, read).1.len() && read_step(s, read).1[i] == PedalEvent::PedalFound;
        assert(read_step(s, read).1[i] == PedalEvent::PedalFound);
    }
}

impl PedalSession {
    /// A disconnected session with the standard read timeout and backoff.
    pub fn new() -> (r: PedalSession)
        ensures
            r@ == initial_session(READ_TIMEOUT_MS, BACKOFF_MS),
    {
        PedalSession::with_intervals(READ_TIMEOUT_MS, BACKOFF_MS)
    }

    /// A disconnected session with the given read timeout and backoff.
    pub fn with_intervals(read_timeout_ms: u16, backoff_ms: u64) -> (r: PedalSession)
        ensures
            r@ == initial_session(read_timeout_ms, backoff_ms),
    {
        PedalSession { status: ConnectionStatus::Disconnected, last_mask: 0, read_timeout_ms, backoff_ms }
    }

    pub fn status(&self) -> (r: ConnectionStatus)
        ensures
            r == self@.status,
    {
        self.status
    }

    pub fn is_connected(&self) -> (r: bool)
        ensures
            r == (self@.status is Connected),
    {
        match self.status {
            ConnectionStatus::Connected => true,
            ConnectionStatus::Disconnected => false,
        }
    }

    /// The button mask last seen in this session.
    pub fn last_mask(&self) -> (r: u8)
        ensures
            r == self@.last_mask,
    {
        self.last_mask
    }

    fn read_step_next(&self) -> (r: NextStep)
        ensures
            r == read_next(self@),
    {
        NextStep::Read { timeout_ms: self.read_timeout_ms }
    }

    fn rescan_step_next(&self) -> (r: NextStep)
        ensures
            r == rescan_next(self@),
    {
        NextStep::Rescan { after_ms: self.backoff_ms }
    }

    /// Takes in the outcome of a scan for the pedal.
    pub fn on_scan(&mut self, outcome: ScanOutcome) -> (r: Reaction)
        ensures
            final(self)@ == scan_step(old(self)@, outcome).0,
            r.events@ == scan_step(old(self)@, outcome).1,
            r.next == scan_step(old(self)@, outcome).2,
    {
        let mut events: Vec<PedalEvent> = Vec::new();
        match self.status {
            ConnectionStatus::Connected => {
                assert(events@ =~= seq![]);
                Reaction { events, next: self.read_step_next() }
            },
            ConnectionStatus::Disconnected => {
                match outcome {
                    ScanOutcome::Opened => {
                        self.status = ConnectionStatus::Connected;
                        self.last_mask = 0;
                        events.push(PedalEvent::PedalFound);
                        assert(events@ =~= seq![PedalEvent::PedalFound]);
                        Reaction { events, next: self.read_step_next() }
                    },
                    _ => {
                        assert(events@ =~= seq![]);
                        Reaction { events, next: self.rescan_step_next() }
                    },
                }
            },
        }
    }

    /// Takes in the outcome of one timed read of an input report.
    pub fn on_read(&mut self, outcome: ReadOutcome) -> (r: Reaction)
        ensures
            final(self)@ == read_step(old(self)@, outcome).0,
            r.events@ == read_step(old(self)@, outcome).1,
            r.next == read_step(old(self)@, outcome).2,
    {
        let mut events: Vec<PedalEvent> = Vec::new();
        match self.status {
            ConnectionStatus::Disconnected => {
                assert(events@ =~= seq![]);
                Reaction { events, next: self.rescan_step_next() }
            },
            ConnectionStatus::Connected => {
                match outcome {
                    ReadOutcome::Report(mask) => {
                        if mask != self.last_mask {
                            events = decode(self.last_mask, mask);
                            self.last_mask = mask;
                        } else {
                            proof {
                                crate::decoder::lemma_unchanged_mask_is_silent(mask);
                            }
                        }
                        Reaction { events, next: self.read_step_next() }
                    },
                    ReadOutcome::Timeout => {
                        assert(events@ =~= seq![]);
                        Reaction { events, next: self.read_step_next() }
                    },
                    ReadOutcome::Failed => {
                        self.status = ConnectionStatus::Disconnected;
                        events.push(PedalEvent::PedalDisconnected);
                        assert(events@ =~= seq![PedalEvent::PedalDisconnected]);
                        Reaction { events, next: self.rescan_step_next() }
                    },
                }
            },
        }
    }
}

impl ReadOutcome {
    /// The outcome of a read that put `count` bytes at the start of
    /// `report`: no bytes means the timeout ran out, otherwise the first byte
    /// is the button mask.
    pub fn from_report(count: usize, report: &[u8]) -> (r: ReadOutcome)
        requires
            count <= report@.len(),
        ensures
            count == 0 ==> r == ReadOutcome::Timeout,
            count > 0 ==> r == ReadOutcome::Report(report@[0]),
    {
        if count == 0 {
            ReadOutcome::Timeout
        } else {
            ReadOutcome::Report(report[0])
        }
    }
}

} // verus!
