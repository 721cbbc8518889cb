use vstd::prelude::*;
use vstd::string::*;

use crate::command::{targets_device, ClientCommand, CommandView};
use crate::info::{ClientInfo, IdentityView};

verus! {

/// Where a connection stands. The phases follow one another in the order
/// listed and never go back; any of them may end in `Terminated`.
#[derive(Debug)]
pub enum Phase {
    /// Reading the device's registration document.
    AwaitingRegistration,
    /// The document was handed out for decoding.
    Decoding,
    /// The document named this identity; its log file is being opened.
    OpeningLog(ClientInfo),
    /// The log is open; the identity is being entered into the registry.
    Enrolling(ClientInfo),
    /// Registered and online: device data is logged, commands delivered.
    Registered(ClientInfo),
    /// The session is over; nothing more happens.
    Terminated,
}

pub enum PhaseView {
    AwaitingRegistration,
    Decoding,
    OpeningLog(IdentityView),
    Enrolling(IdentityView),
    Registered(IdentityView),
    Terminated,
}

impl View for Phase {
    type V = PhaseView;

    open spec fn view(&self) -> PhaseView {
        match self {
            Phase::AwaitingRegistration => PhaseView::AwaitingRegistration,
            Phase::Decoding => PhaseView::Decoding,
            Phase::OpeningLog(c) => PhaseView::OpeningLog(c@),
            Phase::Enrolling(c) => PhaseView::Enrolling(c@),
            Phase::Registered(c) => PhaseView::Registered(c@),
            Phase::Terminated => PhaseView::Terminated,
        }
    }
}

/// Something that happened to a connection.
#[derive(Debug)]
pub enum Event {
    /// One non-empty read from the device, as text.
    Received(String),
    /// The outcome of decoding the registration document.
    Decoded(Option<ClientInfo>),
    /// Whether the device's log file could be opened.
    LogOpened(bool),
    /// Whether the registry accepted the identity.
    Enrolled(bool),
    /// The device closed the connection (a read of length zero).
    PeerClosed,
    /// Reading from the device failed.
    ReadFailed,
    /// Writing to the device or to its log failed.
    WriteFailed,
    /// A command arrived from the command bus.
    Command(ClientCommand),
    /// This connection fell behind the command bus and missed some commands.
    Lagged(u64),
    /// The command bus has no senders left.
    BusClosed,
    /// The deadline that [`Session::deadline`] gave has come.
    Alarm,
}

pub enum EventView {
    Received(Seq<char>),
    Decoded(Option<IdentityView>),
    LogOpened(bool),
    Enrolled(bool),
    PeerClosed,
    ReadFailed,
    WriteFailed,
    Command(CommandView),
    Lagged(u64),
    BusClosed,
    Alarm,
}

impl View for Event {
    type V = EventView;

    open spec fn view(&self) -> EventView {
        match self {
            Event::Received(t) => EventView::Received(t@),
            Event::Decoded(d) => EventView::Decoded(
                match d {
                    Some(c) => Some(c@),
                    None => None,
                },
            ),
            Event::LogOpened(b) => EventView::LogOpened(*b),
            Event::Enrolled(b) => EventView::Enrolled(*b),
            Event::PeerClosed => EventView::PeerClosed,
            Event::ReadFailed => EventView::ReadFailed,
            Event::WriteFailed => EventView::WriteFailed,
            Event::Command(c) => EventView::Command(c@),
            Event::Lagged(n) => EventView::Lagged(*n),
            Event::BusClosed => EventView::BusClosed,
            Event::Alarm => EventView::Alarm,
        }
    }
}

/// What the connection's owner is to do next.
#[derive(Debug)]
pub enum Action {
    /// Nothing.
    Idle,
    /// Decode this text as a registration document and report `Decoded`.
    Decode(String),
    /// Open (create if absent, append) the log file of this identifier and
    /// report `LogOpened`.
    OpenLog(String),
    /// Enter this identity into the online registry and report `Enrolled`.
    Enroll(ClientInfo),
    /// Append a log entry for this payload to the log file and flush it.
    AppendLog(String),
    /// Write this text to the device.
    Send(String),
    /// Flush and close the log file if open, shut the connection down, and
    /// remove the identifier, if one is given, from the online registry.
    Close(Option<String>),
}

pub enum ActionView {
    Idle,
    Decode(Seq<char>),
    OpenLog(Seq<char>),
    Enroll(IdentityView),
    AppendLog(Seq<char>),
    Send(Seq<char>),
    Close(Option<Seq<char>>),
}

impl View for Action {
    type V = ActionView;

    open spec fn view(&self) -> ActionView {
        match self {
            Action::Idle => ActionView::Idle,
            Action::Decode(t) => ActionView::Decode(t@),
            Action::OpenLog(t) => ActionView::OpenLog(t@),
            Action::Enroll(c) => ActionView::Enroll(c@),
            Action::AppendLog(t) => ActionView::AppendLog(t@),
            Action::Send(t) => ActionView::Send(t@),
            Action::Close(id) => ActionView::Close(
                match id {
                    Some(t) => Some(t@),
                    None => None,
                },
            ),
        }
    }
}

/// The state of one connection: its phase, the time (in milliseconds) from
/// which its current deadline runs, and its two time limits.
#[derive(Debug)]
pub struct Session {
    phase: Phase,
    since_ms: u64,
    verify_ms: u64,
    heartbeat_ms: u64,
}

pub struct SessionView {
    pub phase: PhaseView,
    pub since_ms: u64,
    pub verify_ms: u64,
    pub heartbeat_ms: u64,
}

impl View for Session {
    type V = SessionView;

    closed spec fn view(&self) -> SessionView {
        SessionView {
            phase: self.phase@,
            since_ms: self.since_ms,
            verify_ms: self.verify_ms,
            heartbeat_ms: self.heartbeat_ms,
        }
    }
}

/// The keep-alive message a device sends.
pub open spec fn heartbeat_word() -> Seq<char> {
    seq!['H', 'E', 'A', 'R', 'T', 'B', 'E', 'A', 'T']
}

/// The time at which the session's alarm is due, if it is armed: the
/// registration deadline until the device is registered, then the
/// heartbeat deadline (none when the heartbeat interval is zero).
pub open spec fn deadline_of(s: SessionView) -> Option<int> {
    match s.phase {
        PhaseView::Registered(_) => if s.heartbeat_ms > 0 {
            Some(s.since_ms + s.heartbeat_ms)
        } else {
            None
        },
        PhaseView::Terminated => None,
        _ => Some(s.since_ms + s.verify_ms),
    }
}

/// The identifier to remove from the registry when the session in phase
/// `p` ends: only a registered session has one.
pub open spec fn registered_imei(p: PhaseView) -> Option<Seq<char>> {
    match p {
        PhaseView::Registered(c) => Some(c.imei),
        _ => None,
    }
}

pub open spec fn with_phase(s: SessionView, p: PhaseView) -> SessionView {
    SessionView { phase: p, ..s }
}

/// The session once it has ended, and the action that ends it.
pub open spec fn end(s: SessionView) -> (SessionView, ActionView) {
    (with_phase(s, PhaseView::Terminated), ActionView::Close(registered_imei(s.phase)))
}

/// How a session in state `s` responds to event `e` arriving at time `now`.
pub open spec fn step(s: SessionView, e: EventView, now: u64) -> (SessionView, ActionView) {
    match s.phase {
        PhaseView::Terminated => (s, ActionView::Idle),
        _ => match e {
            EventView::PeerClosed | EventView::ReadFailed | EventView::WriteFailed
            | EventView::BusClosed => end(s),
            EventView::Alarm => match deadline_of(s) {
                Some(d) if now >= d => end(s),
                _ => (s, ActionView::Idle),
            },
            EventView::Lagged(_) => (s, ActionView::Idle),
            EventView::Received(text) => match s.phase {
                PhaseView::AwaitingRegistration => if text == heartbeat_word() {
                    (s, ActionView::Idle)
                } else {
                    (with_phase(s, PhaseView::Decoding), ActionView::Decode(text))
                },
                PhaseView::Registered(_) => (
                    SessionView { since_ms: now, ..s },
                    if text == heartbeat_word() {
                        ActionView::Idle
                    } else {
                        ActionView::AppendLog(text)
                    },
                ),
                _ => (s, ActionView::Idle),
            },
            EventView::Decoded(d) => match s.phase {
                PhaseView::Decoding => match d {
                    Some(c) => (with_phase(s, PhaseView::OpeningLog(c)), ActionView::OpenLog(c.imei)),
                    None => end(s),
                },
                _ => (s, ActionView::Idle),
            },
            EventView::LogOpened(ok) => match s.phase {
                PhaseView::OpeningLog(c) => if ok {
                    (with_phase(s, PhaseView::Enrolling(c)), ActionView::Enroll(c))
                } else {
                    end(s)
                },
                _ => (s, ActionView::Idle),
            },
            EventView::Enrolled(ok) => match s.phase {
                PhaseView::Enrolling(c) => if ok {
                    (
                        SessionView { phase: PhaseView::Registered(c), since_ms: now, ..s },
                        ActionView::Idle,
                    )
                } else {
                    end(s)
                },
                _ => (s, ActionView::Idle),
            },
            EventView::Command(c) => match s.phase {
                PhaseView::Registered(me) => if targets_device(c, me.imei) {
                    (s, ActionView::Send(c.payload.push('\n')))
                } else {
                    (s, ActionView::Idle)
                },
                _ => (s, ActionView::Idle),
            },
        },
    }
}

/// Whether `text` is the keep-alive message.
fn is_heartbeat(text: &String) -> (r: bool)
    ensures
        r == (text@ == heartbeat_word()),
{
    proof {
        reveal_strlit("HEARTBEAT");
    }
    let word = String::from_str("HEARTBEAT");
    assert(word@ =~= heartbeat_word());
    *text == word
}

impl Session {
    /// A session for a connection accepted at `now_ms` that must register
    /// within `verify_ms` and, once registered, be heard from at least every
    /// `heartbeat_ms` (zero: no limit).
    pub fn new(now_ms: u64, verify_ms: u64, heartbeat_ms: u64) -> (r: Session)
        ensures
            r@ == (SessionView {
                phase: PhaseView::AwaitingRegistration,
                since_ms: now_ms,
                verify_ms,
                heartbeat_ms,
            }),
    {
        Session { phase: Phase::AwaitingRegistration, since_ms: now_ms, verify_ms, heartbeat_ms }
    }

    pub fn phase(&self) -> (r: &Phase)
        ensures
            r@ == self@.phase,
    {
        &self.phase
    }

    /// Whether the session has ended.
    pub fn is_terminated(&self) -> (r: bool)
        ensures
            r == (self@.phase is Terminated),
    {
        match self.phase {
            Phase::Terminated => true,
            _ => false,
        }
    }

    /// Whether the device is registered and online.
    pub fn is_registered(&self) -> (r: bool)
        ensures
            r == (self@.phase is Registered),
    {
        match self.phase {
            Phase::Registered(_) => true,
            _ => false,
        }
    }

    /// The registered identifier of the device, once registered.
    pub fn identifier(&self) -> (r: Option<String>)
        ensures
            r is None <==> registered_imei(self@.phase) is None,
            r matches Some(t) ==> registered_imei(self@.phase) == Some(t@),
    {
        match &self.phase {
            Phase::Registered(c) => Some(c.identifier()),
            _ => None,
        }
    }

    /// The time at which the alarm is due, if it is armed (and falls within
    /// the range of `u64`).
    pub fn deadline(&self) -> (r: Option<u64>)
        ensures
            r matches Some(d) ==> deadline_of(self@) == Some(d as int),
            r is None ==> deadline_of(self@) is None || deadline_of(self@)->0 > u64::MAX,
    {
        match self.phase {
            Phase::Terminated => None,
            Phase::Registered(_) => if self.heartbeat_ms > 0 {
                self.since_ms.checked_add(self.heartbeat_ms)
            } else {
                None
            },
            _ => self.since_ms.checked_add(self.verify_ms),
        }
    }

    fn finish(&mut self) -> (a: Action)
        requires
            !(old(self)@.phase is Terminated),
        ensures
            (final(self)@, a@) == end(old(self)@),
    {
        let id = self.identifier();
        self.phase = Phase::Terminated;
        Action::Close(id)
    }

    /// Takes in event `event`, which arrived at time `now_ms`, and says what
    /// to do about it.
    pub fn on_event(&mut self, event: Event, now_ms: u64) -> (a: Action)
        ensures
            (final(self)@, a@) == step(old(self)@, event@, now_ms),
    {
        if self.is_terminated() {
            return Action::Idle;
        }
        match event {
            Event::PeerClosed | Event::ReadFailed | Event::WriteFailed | Event::BusClosed => {
                self.finish()
            },
            Event::Alarm => match self.deadline() {
                Some(d) => if now_ms >= d {
                    self.finish()
                } else {
                    Action::Idle
                },
                None => Action::Idle,
            },
            Event::Lagged(_) => Action::Idle,
            Event::Received(text) => match &self.phase {
                Phase::AwaitingRegistration => if is_heartbeat(&text) {
                    Action::Idle
                } else {
                    self.phase = Phase::Decoding;
                    Action::Decode(text)
                },
                Phase::Registered(_) => {
                    self.since_ms = now_ms;
                    if is_heartbeat(&text) {
                        Action::Idle
                    } else {
                        Action::AppendLog(text)
                    }
                },
                _ => Action::Idle,
            },
            Event::Decoded(d) => match &self.phase {
                Phase::Decoding => match d {
                    Some(c) => {
                        let id = c.identifier();
                        self.phase = Phase::OpeningLog(c);
                        Action::OpenLog(id)
                    },
                    None => self.finish(),
                },
                _ => Action::Idle,
            },
            Event::LogOpened(ok) => match &self.phase {
                Phase::OpeningLog(c) => if ok {
                    let c1 = c.snapshot();
                    let c2 = c.snapshot();
                    self.phase = Phase::Enrolling(c1);
                    Action::Enroll(c2)
                } else {
                    self.finish()
                },
                _ => Action::Idle,
            },
            Event::Enrolled(ok) => match &self.phase {
                Phase::Enrolling(c) => if ok {
                    let c1 = c.snapshot();
                    self.phase = Phase::Registered(c1);
                    self.since_ms = now_ms;
                    Action::Idle
                } else {
                    self.finish()
                },
                _ => Action::Idle,
            },
            Event::Command(c) => match &self.phase {
                Phase::Registered(me) => if c.is_targeted(me.imei.as_str()) {
                    let mut line = c.payload;
                    proof {
                        reveal_strlit("\n");
                    }
                    line.append("\n");
                    assert(line@ =~= c@.payload.push('\n'));
                    Action::Send(line)
                } else {
                    Action::Idle
                },
                _ => Action::Idle,
            },
        }
    }
}

/// The session and the actions after the events `evs`, each with the time
/// it arrived, taken in order from state `s`.
pub open spec fn run(s: SessionView, evs: Seq<(EventView, u64)>) -> (SessionView, Seq<ActionView>)
    decreases evs.len(),
{
    if evs.len() == 0 {
        (s, Seq::<ActionView>::empty())
    } else {
        let before = run(s, evs.drop_last());
        let after = step(before.0, evs.last().0, evs.last().1);
        (after.0, before.1.push(after.1))
    }
}

pub proof fn lemma_run_len(s: SessionView, evs: Seq<(EventView, u64)>)
    ensures
        run(s, evs).1.len() == evs.len(),
    decreases evs.len(),
{
    if evs.len() > 0 {
        lemma_run_len(s, evs.drop_last());
    }
}

/// An ended session stays ended and asks for nothing more.
pub proof fn lemma_terminated_is_final(s: SessionView, e: EventView, now: u64)
    requires
        s.phase is Terminated,
    ensures
        step(s, e, now) == (s, ActionView::Idle),
{
}

/// Entering the registry is asked for only for an identity that was decoded
/// from the device's document and whose log file opened, and a session
/// counts as registered only once the registry has accepted it.
pub proof fn lemma_enrollment_needs_verification(s: SessionView, e: EventView, now: u64)
    ensures
        step(s, e, now).1 matches ActionView::Enroll(c) ==> s.phase == PhaseView::OpeningLog(c)
            && e == EventView::LogOpened(true),
        step(s, e, now).0.phase matches PhaseView::OpeningLog(c) ==> s.phase
            == PhaseView::OpeningLog(c) || (s.phase is Decoding && e == EventView::Decoded(
            Some(c),
        )),
        step(s, e, now).0.phase matches PhaseView::Registered(c) ==> s.phase
            == PhaseView::Registered(c) || (s.phase == PhaseView::Enrolling(c) && e
            == EventView::Enrolled(true)),
{
}

/// The events that end an unregistered session: the document did not
/// decode, the log did not open, the registry refused the identity, the
/// connection failed or closed, or the registration deadline passed.
pub open spec fn fails_registration(s: SessionView, e: EventView, now: u64) -> bool {
    match e {
        EventView::Decoded(None) => s.phase is Decoding,
        EventView::LogOpened(false) => s.phase is OpeningLog,
        EventView::Enrolled(false) => s.phase is Enrolling,
        EventView::PeerClosed | EventView::ReadFailed | EventView::WriteFailed
        | EventView::BusClosed => true,
        EventView::Alarm => now >= s.since_ms + s.verify_ms,
        _ => false,
    }
}

/// A connection whose registration fails ends at once, and its closing
/// removes nothing from the registry.
pub proof fn lemma_failed_registration_ends(s: SessionView, e: EventView, now: u64)
    requires
        !(s.phase is Registered),
        !(s.phase is Terminated),
        fails_registration(s, e, now),
    ensures
        step(s, e, now) == (with_phase(s, PhaseView::Terminated), ActionView::Close(None)),
{
}

/// A session that the registry never accepted is never registered, and none
/// of its actions removes a registry entry.
pub proof fn lemma_unaccepted_session_stays_out(s: SessionView, evs: Seq<(EventView, u64)>)
    requires
        !(s.phase is Registered),
        forall|k: int| 0 <= k < evs.len() ==> (#[trigger] evs[k]).0 != EventView::Enrolled(true),
    ensures
        !(run(s, evs).0.phase is Registered),
        forall|k: int|
            0 <= k < run(s, evs).1.len() ==> !(#[trigger] run(s, evs).1[k] matches ActionView::Close(
                Some(_),
            )),
    decreases evs.len(),
{
    if evs.len() > 0 {
        let init = evs.drop_last();
        assert forall|k: int| 0 <= k < init.len() implies (#[trigger] init[k]).0
            != EventView::Enrolled(true) by {
            assert(init[k] == evs[k]);
        }
        lemma_unaccepted_session_stays_out(s, init);
        assert(evs[evs.len() - 1] == evs.last());
        lemma_enrollment_needs_verification(run(s, init).0, evs.last().0, evs.last().1);
    }
}

/// A registered device receives exactly the commands meant for it, each
/// followed by a line break; a command for one other device never reaches
/// it; and the session itself does not change.
pub proof fn lemma_command_targeting(s: SessionView, c: CommandView, now: u64)
    requires
        s.phase is Registered,
    ensures
        step(s, EventView::Command(c), now).0 == s,
        step(s, EventView::Command(c), now).1 == (if targets_device(c, s.phase->Registered_0.imei) {
            ActionView::Send(c.payload.push('\n'))
        } else {
            ActionView::Idle
        }),
        c.targets.len() == 1 ==> (step(s, EventView::Command(c), now).1 is Send <==> c.targets[0]
            == s.phase->Registered_0.imei),
{
    if c.targets.len() == 1 {
        let me = s.phase->Registered_0.imei;
        if c.targets.contains(me) {
            let k: int = choose|k: int| 0 <= k < c.targets.len() && c.targets[k] == me;
            assert(k == 0);
        }
        if c.targets[0] == me {
            assert(c.targets.contains(me));
        }
    }
}

/// A session that is not registered is sent no command.
pub proof fn lemma_unregistered_gets_no_command(s: SessionView, c: CommandView, now: u64)
    requires
        !(s.phase is Registered),
    ensures
        step(s, EventView::Command(c), now).1 == ActionView::Idle,
{
}

/// The time the device was last heard from before the `k`-th event, going
/// by heartbeats only.
pub open spec fn heard_before(s: SessionView, evs: Seq<(EventView, u64)>, k: int) -> int
    decreases k,
{
    if k <= 0 {
        s.since_ms as int
    } else if evs[k - 1].0 == EventView::Received(heartbeat_word()) {
        evs[k - 1].1 as int
    } else {
        heard_before(s, evs, k - 1)
    }
}

/// Every event is a heartbeat, or an alarm that comes less than one
/// heartbeat interval after the device was last heard from.
pub open spec fn keeps_pace(s: SessionView, evs: Seq<(EventView, u64)>) -> bool {
    forall|k: int|
        0 <= k < evs.len() ==> (#[trigger] evs[k]).0 == EventView::Received(heartbeat_word()) || (
        evs[k].0 == EventView::Alarm && evs[k].1 < heard_before(s, evs, k) + s.heartbeat_ms)
}

proof fn lemma_heard_before_prefix(s: SessionView, evs: Seq<(EventView, u64)>, k: int)
    requires
        evs.len() > 0,
        0 <= k < evs.len(),
    ensures
        heard_before(s, evs.drop_last(), k) == heard_before(s, evs, k),
    decreases k,
{
    if k > 0 {
        assert(evs.drop_last()[k - 1] == evs[k - 1]);
        lemma_heard_before_prefix(s, evs, k - 1);
    }
}

/// A registered device that sends only heartbeats, each arriving before
/// the previous one's interval has run out, is never timed out: it stays
/// registered, nothing is asked for, and its deadline runs from its last
/// heartbeat.
pub proof fn lemma_heartbeats_keep_alive(s: SessionView, evs: Seq<(EventView, u64)>)
    requires
        s.phase is Registered,
        keeps_pace(s, evs),
    ensures
        run(s, evs).0 == (SessionView { since_ms: run(s, evs).0.since_ms, ..s }),
        run(s, evs).0.since_ms == heard_before(s, evs, evs.len() as int),
        forall|k: int| 0 <= k < run(s, evs).1.len() ==> #[trigger] run(s, evs).1[k] == ActionView::Idle,
    decreases evs.len(),
{
    lemma_run_len(s, evs);
    if evs.len() > 0 {
        let init = evs.drop_last();
        assert forall|k: int| 0 <= k < init.len() implies (#[trigger] init[k]).0
            == EventView::Received(heartbeat_word()) || (init[k].0 == EventView::Alarm
            && init[k].1 < heard_before(s, init, k) + s.heartbeat_ms) by {
            assert(init[k] == evs[k]);
            lemma_heard_before_prefix(s, evs, k);
        }
        lemma_heartbeats_keep_alive(s, init);
        lemma_heard_before_prefix(s, evs, evs.len() - 1);
        assert(evs[evs.len() - 1] == evs.last());
        lemma_run_len(s, init);
    }
}

/// A registered device not heard from for a whole heartbeat interval is
/// timed out at its alarm, and its closing removes it from the registry.
pub proof fn lemma_silence_ends_session(s: SessionView, now: u64)
    requires
        s.phase is Registered,
        s.heartbeat_ms > 0,
        now >= s.since_ms + s.heartbeat_ms,
    ensures
        step(s, EventView::Alarm, now) == (
            with_phase(s, PhaseView::Terminated),
            ActionView::Close(Some(s.phase->Registered_0.imei)),
        ),
{
}

/// With a heartbeat interval of zero, a registered device is never timed
/// out.
pub proof fn lemma_zero_interval_never_times_out(s: SessionView, now: u64)
    requires
        s.phase is Registered,
        s.heartbeat_ms == 0,
    ensures
        step(s, EventView::Alarm, now) == (s, ActionView::Idle),
{
}

} // verus!
