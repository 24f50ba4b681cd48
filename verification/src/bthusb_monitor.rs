//! Watching the Bluetooth adapter's driver for signs that a controller has
//! lost power or been unpaired.

use vstd::prelude::*;

use crate::device_loop::emit;
use crate::state::{IpcEvent, IpcEventModel};
use crate::text;

verus! {

/// A packet of the wrong size: the controller has lost power.
pub const EVT_HCI_SIZE_MISMATCH: i32 = 5;

/// A link key was removed: the controller was unpaired.
pub const EVT_REMOTE_UNPAIRED: i32 = 10;

/// A link key could not be stored.
pub const EVT_LINK_KEY_STORE_FAIL: i32 = 18;

/// Ticks of 100 ns from the year 1 to the year 1970.
pub const TICKS_TO_EPOCH: i64 = 621_355_968_000_000_000;

/// What the event log holds.
#[derive(Clone, Copy, Debug, PartialEq, Eq, Structural)]
pub struct BthUsbSnapshot {
    pub power_down_events: u32,
    pub disconnect_events: u32,
    pub link_key_faults: u32,
    /// When the latest event was, in milliseconds since 1970.
    pub last_event_ts: u64,
    /// What the latest event was.
    pub last_event_id: i32,
}

/// Nothing in the log.
pub open spec fn empty_log() -> BthUsbSnapshot {
    BthUsbSnapshot {
        power_down_events: 0,
        disconnect_events: 0,
        link_key_faults: 0,
        last_event_ts: 0,
        last_event_id: 0,
    }
}

impl Default for BthUsbSnapshot {
    fn default() -> (r: Self)
        ensures
            r == empty_log(),
    {
        BthUsbSnapshot {
            power_down_events: 0,
            disconnect_events: 0,
            link_key_faults: 0,
            last_event_ts: 0,
            last_event_id: 0,
        }
    }
}

/// An event as it happens.
#[derive(Clone, Copy, Debug, PartialEq, Eq, Structural)]
pub struct BthUsbEtwEvent {
    pub event_id: i32,
}

// ---------------------------------------------------------------------------
// Reading the log
// ---------------------------------------------------------------------------

/// A text as a number, or 0.
pub open spec fn number_or_zero(s: Seq<char>, lo: int, hi: int) -> int {
    match text::parsed_int(s, lo, hi) {
        Some(v) => v,
        None => 0,
    }
}

/// The part of a line before its first bar.
pub open spec fn first_part(line: Seq<char>) -> Seq<char> {
    line.take(text::before(line, '|'))
}

/// The part of a line between its first bar and its second.
pub open spec fn second_part(line: Seq<char>) -> Seq<char> {
    let rest = line.skip(text::before(line, '|') + 1);
    rest.take(text::before(rest, '|'))
}

/// The identifier on a line; 0 where there is none.
pub open spec fn line_id(line: Seq<char>) -> i32 {
    number_or_zero(first_part(line), i32::MIN as int, i32::MAX as int) as i32
}

/// The ticks on a line; 0 where there are none.
pub open spec fn line_ticks(line: Seq<char>) -> i64 {
    if text::before(line, '|') < line.len() {
        number_or_zero(second_part(line), i64::MIN as int, i64::MAX as int) as i64
    } else {
        0
    }
}

/// Ticks as milliseconds since 1970; 0 before that.
pub open spec fn ticks_to_ms(ticks: i64) -> u64 {
    if ticks <= TICKS_TO_EPOCH {
        0
    } else {
        ((ticks - TICKS_TO_EPOCH) / 10_000) as u64
    }
}

/// What the log holds with one more event.
pub open spec fn counted(s: BthUsbSnapshot, id: i32, ms: u64) -> BthUsbSnapshot {
    BthUsbSnapshot {
        power_down_events: (s.power_down_events + (if id == EVT_HCI_SIZE_MISMATCH {
            1int
        } else {
            0
        })) as u32,
        disconnect_events: (s.disconnect_events + (if id == EVT_REMOTE_UNPAIRED {
            1int
        } else {
            0
        })) as u32,
        link_key_faults: (s.link_key_faults + (if id == EVT_LINK_KEY_STORE_FAIL {
            1int
        } else {
            0
        })) as u32,
        last_event_ts: if ms > s.last_event_ts {
            ms
        } else {
            s.last_event_ts
        },
        last_event_id: if ms > s.last_event_ts {
            id
        } else {
            s.last_event_id
        },
    }
}

/// What some lines of the log hold. Blank lines do not count.
pub open spec fn log_of(lines: Seq<Seq<char>>) -> BthUsbSnapshot
    decreases lines.len(),
{
    if lines.len() == 0 {
        empty_log()
    } else {
        let rest = log_of(lines.drop_last());
        let line = text::trimmed(lines.last());
        if line.len() == 0 {
            rest
        } else {
            counted(rest, line_id(line), ticks_to_ms(line_ticks(line)))
        }
    }
}

/// How many lines tell of an event with this identifier.
pub open spec fn events_in(lines: Seq<Seq<char>>, id: i32) -> int
    decreases lines.len(),
{
    if lines.len() == 0 {
        0
    } else {
        let line = text::trimmed(lines.last());
        events_in(lines.drop_last(), id) + (if line.len() > 0 && line_id(line) == id {
            1int
        } else {
            0
        })
    }
}

/// Whether the events of each kind can be counted.
pub open spec fn can_be_counted(lines: Seq<Seq<char>>) -> bool {
    &&& events_in(lines, EVT_HCI_SIZE_MISMATCH) <= u32::MAX
    &&& events_in(lines, EVT_REMOTE_UNPAIRED) <= u32::MAX
    &&& events_in(lines, EVT_LINK_KEY_STORE_FAIL) <= u32::MAX
}

/// The number of lines that are not blank.
pub open spec fn lines_counted(lines: Seq<Seq<char>>) -> int
    decreases lines.len(),
{
    if lines.len() == 0 {
        0
    } else {
        lines_counted(lines.drop_last()) + (if text::trimmed(lines.last()).len() == 0 {
            0int
        } else {
            1
        })
    }
}

fn parse_line(line: &Vec<char>) -> (r: (i32, i64))
    ensures
        r.0 == line_id(line@),
        r.1 == line_ticks(line@),
{
    let bar: usize = text::position(line.as_slice(), '|');
    let head = text::slice_chars(line.as_slice(), 0, bar);
    assert(head@ =~= first_part(line@));
    let id: i32 = match text::parse_i32(head.as_slice()) {
        Some(v) => v,
        None => 0,
    };
    if bar >= line.len() {
        return (id, 0);
    }
    let rest = text::slice_chars(line.as_slice(), bar + 1, line.len());
    assert(rest@ =~= line@.skip(bar + 1));
    let end: usize = text::position(rest.as_slice(), '|');
    let middle = text::slice_chars(rest.as_slice(), 0, end);
    assert(middle@ =~= second_part(line@));
    let ticks: i64 = match text::parse_i64(middle.as_slice()) {
        Some(v) => v,
        None => 0,
    };
    (id, ticks)
}

fn ms_of_ticks(ticks: i64) -> (r: u64)
    ensures
        r == ticks_to_ms(ticks),
{
    if ticks <= TICKS_TO_EPOCH {
        return 0;
    }
    ((ticks - TICKS_TO_EPOCH) / 10_000) as u64
}

/// Counts a line that is not blank.
fn count_line(s: &mut BthUsbSnapshot, id: i32, ms: u64)
    requires
        id == EVT_HCI_SIZE_MISMATCH ==> old(s).power_down_events < u32::MAX,
        id == EVT_REMOTE_UNPAIRED ==> old(s).disconnect_events < u32::MAX,
        id == EVT_LINK_KEY_STORE_FAIL ==> old(s).link_key_faults < u32::MAX,
    ensures
        *final(s) == counted(*old(s), id, ms),
{
    if id == EVT_HCI_SIZE_MISMATCH {
        s.power_down_events = s.power_down_events + 1;
    } else if id == EVT_REMOTE_UNPAIRED {
        s.disconnect_events = s.disconnect_events + 1;
    } else if id == EVT_LINK_KEY_STORE_FAIL {
        s.link_key_faults = s.link_key_faults + 1;
    }
    if ms > s.last_event_ts {
        s.last_event_ts = ms;
        s.last_event_id = id;
    }
}

proof fn lemma_events_only_grow(lines: Seq<Seq<char>>, n: int, id: i32)
    requires
        0 <= n <= lines.len(),
    ensures
        0 <= events_in(lines.take(n), id) <= events_in(lines, id),
    decreases lines.len(),
{
    if n == lines.len() {
        assert(lines.take(n) =~= lines);
        if n > 0 {
            assert(lines.drop_last().take(n - 1) =~= lines.drop_last());
            lemma_events_only_grow(lines.drop_last(), n - 1, id);
        }
    } else {
        assert(lines.drop_last().take(n) =~= lines.take(n));
        lemma_events_only_grow(lines.drop_last(), n, id);
    }
}

proof fn lemma_prefix_can_be_counted(lines: Seq<Seq<char>>, n: int)
    requires
        0 <= n <= lines.len(),
        can_be_counted(lines),
    ensures
        can_be_counted(lines.take(n)),
{
    lemma_events_only_grow(lines, n, EVT_HCI_SIZE_MISMATCH);
    lemma_events_only_grow(lines, n, EVT_REMOTE_UNPAIRED);
    lemma_events_only_grow(lines, n, EVT_LINK_KEY_STORE_FAIL);
}

proof fn lemma_log_counts_events(lines: Seq<Seq<char>>)
    requires
        can_be_counted(lines),
    ensures
        0 <= lines_counted(lines) <= lines.len(),
        log_of(lines).power_down_events == events_in(lines, EVT_HCI_SIZE_MISMATCH),
        log_of(lines).disconnect_events == events_in(lines, EVT_REMOTE_UNPAIRED),
        log_of(lines).link_key_faults == events_in(lines, EVT_LINK_KEY_STORE_FAIL),
        log_of(lines).power_down_events + log_of(lines).disconnect_events + log_of(
            lines,
        ).link_key_faults <= lines_counted(lines),
    decreases lines.len(),
{
    if lines.len() > 0 {
        assert(lines.take(lines.len() - 1) =~= lines.drop_last());
        lemma_prefix_can_be_counted(lines, lines.len() - 1);
        lemma_log_counts_events(lines.drop_last());
    }
}

/// Reads the log: a line for each event, with its identifier and its ticks
/// between bars. Also the number of lines that are not blank.
pub fn parse_poll_output(parsed: &str) -> (r: (BthUsbSnapshot, u64))
    requires
        can_be_counted(text::lines_of(parsed@)),
    ensures
        r.0 == log_of(text::lines_of(parsed@)),
        r.1 == lines_counted(text::lines_of(parsed@)),
{
    let chars = text::chars_of(parsed);
    let lines = text::lines(chars.as_slice());
    let ghost all = text::lines_of(parsed@);
    let mut snap = BthUsbSnapshot::default();
    let mut total: u64 = 0;
    let mut i: usize = 0;
    assert(all.take(0) =~= Seq::empty());
    while i < lines.len()
        invariant
            i <= lines@.len(),
            lines@.len() == all.len(),
            can_be_counted(all),
            forall|j: int| 0 <= j < lines@.len() ==> (#[trigger] lines@[j])@ == all[j],
            snap == log_of(all.take(i as int)),
            total == lines_counted(all.take(i as int)),
            total <= i,
        decreases lines@.len() - i,
    {
        proof {
            assert(all.take(i + 1).drop_last() =~= all.take(i as int));
            assert(lines@[i as int]@ == all[i as int]);
            lemma_prefix_can_be_counted(all, i as int);
            lemma_log_counts_events(all.take(i as int));
            lemma_prefix_can_be_counted(all, i + 1);
        }
        let line = text::trim(lines[i].as_slice());
        if line.len() > 0 {
            total = total + 1;
            let (id, ticks) = parse_line(&line);
            count_line(&mut snap, id, ms_of_ticks(ticks));
        }
        i = i + 1;
    }
    assert(all.take(all.len() as int) =~= all);
    (snap, total)
}

/// The text after the opening tag that begins at a position, up to the next
/// tag; none where the opening tag does not end.
pub open spec fn tag_content(xml: Seq<char>, start: int) -> Option<Seq<char>> {
    let rest = xml.skip(start);
    let close = text::before(rest, '>');
    if close < rest.len() {
        let after = rest.skip(close + 1);
        Some(after.take(text::before(after, '<')))
    } else {
        None
    }
}

/// The identifier in the XML form of an event; 0 where there is none.
pub open spec fn event_id_in(xml: Seq<char>) -> i32 {
    match text::first_place(xml, "<EventID"@) {
        Some(start) => match tag_content(xml, start) {
            Some(content) => number_or_zero(
                text::trimmed(content),
                i32::MIN as int,
                i32::MAX as int,
            ) as i32,
            None => 0,
        },
        None => 0,
    }
}

/// The identifier in the XML form of an event.
pub fn parse_event_id(xml: &str) -> (r: i32)
    ensures
        r == event_id_in(xml@),
{
    let chars = text::chars_of(xml);
    let key = text::chars_of("<EventID");
    let start: usize = match text::find(chars.as_slice(), key.as_slice()) {
        Some(i) => {
            proof {
                text::lemma_first_place(xml@, "<EventID"@, Some(i as int));
            }
            i
        },
        None => {
            proof {
                text::lemma_first_place(xml@, "<EventID"@, None);
            }
            return 0;
        },
    };
    let rest = text::slice_chars(chars.as_slice(), start, chars.len());
    assert(rest@ =~= xml@.skip(start as int));
    let close: usize = text::position(rest.as_slice(), '>');
    if close >= rest.len() {
        return 0;
    }
    let after = text::slice_chars(rest.as_slice(), close + 1, rest.len());
    assert(after@ =~= rest@.skip(close + 1));
    let end: usize = text::position(after.as_slice(), '<');
    let content = text::slice_chars(after.as_slice(), 0, end);
    assert(content@ =~= after@.take(end as int));
    let body = text::trim(content.as_slice());
    match text::parse_i32(body.as_slice()) {
        Some(v) => v,
        None => 0,
    }
}

// ---------------------------------------------------------------------------
// The monitor
// ---------------------------------------------------------------------------

/// What is remembered of the log.
#[derive(Clone, Copy, Debug, PartialEq, Eq, Structural)]
pub struct BthUsbMonitor {
    /// How many events the log held when it was last read.
    pub last_seen_total: u64,
    /// How many of them were losses of power.
    pub prev_power_down: u32,
    /// How many of them were unpairings.
    pub prev_disconnect: u32,
    /// How many of them were faults of a link key.
    pub prev_link_key: u32,
}

/// Nothing remembered.
pub open spec fn fresh_monitor() -> BthUsbMonitor {
    BthUsbMonitor { last_seen_total: 0, prev_power_down: 0, prev_disconnect: 0, prev_link_key: 0 }
}

/// What is remembered after a reading of the log.
pub open spec fn noted(m: BthUsbMonitor, snap: BthUsbSnapshot) -> BthUsbMonitor {
    BthUsbMonitor {
        prev_power_down: snap.power_down_events,
        prev_disconnect: snap.disconnect_events,
        prev_link_key: snap.link_key_faults,
        ..m
    }
}

impl BthUsbMonitor {
    /// Nothing remembered.
    pub fn new() -> (r: Self)
        ensures
            r == fresh_monitor(),
    {
        BthUsbMonitor {
            last_seen_total: 0,
            prev_power_down: 0,
            prev_disconnect: 0,
            prev_link_key: 0,
        }
    }

    /// Reads the log; a log that could not be had holds nothing.
    pub fn poll_once(&mut self, output: Option<&str>) -> (r: BthUsbSnapshot)
        requires
            output matches Some(s) ==> can_be_counted(text::lines_of(s@)),
        ensures
            match output {
                Some(s) => r == log_of(text::lines_of(s@)) && *final(self) == (BthUsbMonitor {
                    last_seen_total: lines_counted(text::lines_of(s@)) as u64,
                    ..*old(self)
                }),
                None => r == empty_log() && *final(self) == *old(self),
            },
    {
        match output {
            Some(s) => {
                let (snap, total) = parse_poll_output(s);
                self.last_seen_total = total;
                snap
            },
            None => BthUsbSnapshot::default(),
        }
    }

    /// Whether the log holds more losses of power than before.
    pub fn detect_new_power_down(&self, snap: &BthUsbSnapshot, prev_power_down: u32) -> (r: bool)
        ensures
            r == (snap.power_down_events > prev_power_down),
    {
        snap.power_down_events > prev_power_down
    }

    /// The events that a reading of the log has brought to light.
    pub fn note_snapshot(&mut self, snap: &BthUsbSnapshot) -> (r: Vec<i32>)
        ensures
            r@ == new_events(*old(self), *snap),
            *final(self) == noted(*old(self), *snap),
    {
        let mut out: Vec<i32> = Vec::new();
        if self.detect_new_power_down(snap, self.prev_power_down) {
            out.push(EVT_HCI_SIZE_MISMATCH);
        }
        if snap.disconnect_events > self.prev_disconnect {
            out.push(EVT_REMOTE_UNPAIRED);
        }
        if snap.link_key_faults > self.prev_link_key {
            out.push(EVT_LINK_KEY_STORE_FAIL);
        }
        self.prev_power_down = snap.power_down_events;
        self.prev_disconnect = snap.disconnect_events;
        self.prev_link_key = snap.link_key_faults;
        assert(out@ =~= new_events(*old(self), *snap));
        out
    }
}

impl Default for BthUsbMonitor {
    fn default() -> (r: Self)
        ensures
            r == fresh_monitor(),
    {
        BthUsbMonitor::new()
    }
}

/// The events that a reading of the log has brought to light: a loss of power
/// where there are more of them than before, and an unpairing and a fault of a
/// link key likewise.
pub open spec fn new_events(m: BthUsbMonitor, snap: BthUsbSnapshot) -> Seq<i32> {
    (if snap.power_down_events > m.prev_power_down {
        seq![EVT_HCI_SIZE_MISMATCH]
    } else {
        Seq::empty()
    }) + (if snap.disconnect_events > m.prev_disconnect {
        seq![EVT_REMOTE_UNPAIRED]
    } else {
        Seq::empty()
    }) + (if snap.link_key_faults > m.prev_link_key {
        seq![EVT_LINK_KEY_STORE_FAIL]
    } else {
        Seq::empty()
    })
}

/// What the application is told of an event.
pub open spec fn event_messages(event_id: i32, now: u64) -> Seq<IpcEventModel> {
    if event_id == EVT_HCI_SIZE_MISMATCH {
        seq![
            IpcEventModel::BluetoothPowerEvent { event_type: "Power_Down"@, timestamp: now },
            IpcEventModel::LogMessage {
                level: "warn"@,
                message: "BTHUSB power-down proxy (Event ID 5) detected at "@ + text::decimal(
                    now as nat,
                ),
            },
        ]
    } else if event_id == EVT_REMOTE_UNPAIRED {
        seq![
            IpcEventModel::Disconnected { reason: "BTHUSB link key removed (Event ID 10)"@ },
            IpcEventModel::LogMessage {
                level: "warn"@,
                message: "Controller unpaired at "@ + text::decimal(now as nat),
            },
        ]
    } else if event_id == EVT_LINK_KEY_STORE_FAIL {
        seq![
            IpcEventModel::LogMessage {
                level: "warn"@,
                message: "BTHUSB link key persistence fault (Event ID 18) at "@ + text::decimal(
                    now as nat,
                ),
            },
        ]
    } else {
        Seq::empty()
    }
}

/// What is done about an event.
#[derive(Debug)]
pub struct Dispatch {
    /// What the application is told.
    pub events: Vec<IpcEvent>,
    /// Whether the keep-alive is told of a loss of power.
    pub power_down: bool,
}

/// A number after a text.
fn end_with_number(head: &str, n: u64) -> (r: String)
    ensures
        r@ == head@ + text::decimal(n as nat),
{
    let mut out = head.to_string();
    text::push_decimal(&mut out, n);
    out
}

/// Decides what is done about an event.
pub fn dispatch_event(event_id: i32, now: u64) -> (r: Dispatch)
    ensures
        r.events.deep_view() == event_messages(event_id, now),
        r.power_down == (event_id == EVT_HCI_SIZE_MISMATCH),
{
    let mut events: Vec<IpcEvent> = Vec::new();
    assert(events.deep_view() =~= Seq::<IpcEventModel>::empty());
    if event_id == EVT_HCI_SIZE_MISMATCH {
        emit(
            &mut events,
            IpcEvent::BluetoothPowerEvent { event_type: "Power_Down".to_string(), timestamp: now },
        );
        emit(
            &mut events,
            IpcEvent::LogMessage {
                level: "warn".to_string(),
                message: end_with_number(
                    "BTHUSB power-down proxy (Event ID 5) detected at ",
                    now,
                ),
            },
        );
    } else if event_id == EVT_REMOTE_UNPAIRED {
        emit(
            &mut events,
            IpcEvent::Disconnected {
                reason: "BTHUSB link key removed (Event ID 10)".to_string(),
            },
        );
        emit(
            &mut events,
            IpcEvent::LogMessage {
                level: "warn".to_string(),
                message: end_with_number("Controller unpaired at ", now),
            },
        );
    } else if event_id == EVT_LINK_KEY_STORE_FAIL {
        emit(
            &mut events,
            IpcEvent::LogMessage {
                level: "warn".to_string(),
                message: end_with_number(
                    "BTHUSB link key persistence fault (Event ID 18) at ",
                    now,
                ),
            },
        );
    }
    assert(events.deep_view() =~= event_messages(event_id, now));
    Dispatch { events, power_down: event_id == EVT_HCI_SIZE_MISMATCH }
}

// ---------------------------------------------------------------------------
// Laws
// ---------------------------------------------------------------------------

/// No more events of the three kinds are counted than there are lines that are
/// not blank.
pub proof fn law_counts_add_up(lines: Seq<Seq<char>>)
    requires
        can_be_counted(lines),
    ensures
        log_of(lines).power_down_events + log_of(lines).disconnect_events + log_of(
            lines,
        ).link_key_faults <= lines_counted(lines) <= lines.len(),
{
    lemma_log_counts_events(lines);
}

/// More lines in the log never lower a count, nor bring back an earlier time.
pub proof fn law_log_only_grows(lines: Seq<Seq<char>>, more: Seq<Seq<char>>)
    requires
        can_be_counted(lines + more),
    ensures
        log_of(lines).power_down_events <= log_of(lines + more).power_down_events,
        log_of(lines).disconnect_events <= log_of(lines + more).disconnect_events,
        log_of(lines).link_key_faults <= log_of(lines + more).link_key_faults,
        log_of(lines).last_event_ts <= log_of(lines + more).last_event_ts,
    decreases more.len(),
{
    if more.len() == 0 {
        assert(lines + more =~= lines);
    } else {
        let all = lines + more;
        assert(all.drop_last() =~= lines + more.drop_last());
        assert(all.take(all.len() - 1) =~= all.drop_last());
        lemma_prefix_can_be_counted(all, all.len() - 1);
        law_log_only_grows(lines, more.drop_last());
        lemma_log_counts_events(all.drop_last());
        lemma_log_counts_events(all);
        lemma_events_only_grow(all, all.len() - 1, EVT_HCI_SIZE_MISMATCH);
        lemma_events_only_grow(all, all.len() - 1, EVT_REMOTE_UNPAIRED);
        lemma_events_only_grow(all, all.len() - 1, EVT_LINK_KEY_STORE_FAIL);
    }
}

/// The same log read again brings nothing to light.
pub proof fn law_same_log_is_silent(m: BthUsbMonitor, snap: BthUsbSnapshot)
    ensures
        new_events(noted(m, snap), snap).len() == 0,
{
}

/// Every kind of event that the application is told of comes to light in the
/// log too: exactly where its count has grown, and nothing else does.
pub proof fn law_growth_comes_to_light(m: BthUsbMonitor, snap: BthUsbSnapshot)
    ensures
        new_events(m, snap).contains(EVT_HCI_SIZE_MISMATCH) == (snap.power_down_events
            > m.prev_power_down),
        new_events(m, snap).contains(EVT_REMOTE_UNPAIRED) == (snap.disconnect_events
            > m.prev_disconnect),
        new_events(m, snap).contains(EVT_LINK_KEY_STORE_FAIL) == (snap.link_key_faults
            > m.prev_link_key),
        forall|id: i32, now: u64|
            new_events(m, snap).contains(id) ==> (#[trigger] event_messages(id, now)).len() > 0,
        forall|id: i32, now: u64|
            (#[trigger] event_messages(id, now)).len() > 0 ==> id == EVT_HCI_SIZE_MISMATCH || id
                == EVT_REMOTE_UNPAIRED || id == EVT_LINK_KEY_STORE_FAIL,
{
    let events = new_events(m, snap);
    let a: int = if snap.power_down_events > m.prev_power_down { 1 } else { 0 };
    let b: int = if snap.disconnect_events > m.prev_disconnect { 1 } else { 0 };
    if snap.power_down_events > m.prev_power_down {
        assert(events[0] == EVT_HCI_SIZE_MISMATCH);
    }
    if snap.disconnect_events > m.prev_disconnect {
        assert(events[a] == EVT_REMOTE_UNPAIRED);
    }
    if snap.link_key_faults > m.prev_link_key {
        assert(events[a + b] == EVT_LINK_KEY_STORE_FAIL);
    }
}

/// Later ticks are later milliseconds.
pub proof fn law_ticks_keep_order(a: i64, b: i64)
    requires
        a <= b,
    ensures
        ticks_to_ms(a) <= ticks_to_ms(b),
{
}

/// A line is read up to its first bar for the identifier, and from there up to
/// its next bar, or its end, for the ticks.
pub proof fn law_parts_of_a_line(id: Seq<char>, ticks: Seq<char>, rest: Seq<char>)
    requires
        !id.contains('|'),
        !ticks.contains('|'),
    ensures
        ({
            let short = id.push('|') + ticks;
            let long = id.push('|') + (ticks.push('|') + rest);
            &&& first_part(id) == id
            &&& first_part(short) == id && second_part(short) == ticks
            &&& first_part(long) == id && second_part(long) == ticks
            &&& line_ticks(id) == 0
            &&& line_ticks(short) == number_or_zero(ticks, i64::MIN as int, i64::MAX as int)
            &&& line_id(short) == number_or_zero(id, i32::MIN as int, i32::MAX as int)
        }),
{
    let short = id.push('|') + ticks;
    let tail = ticks.push('|') + rest;
    let long = id.push('|') + tail;
    text::law_before_a_character(id, '|', ticks);
    text::law_before_a_character(id, '|', tail);
    text::law_before_a_character(ticks, '|', rest);
    assert(id.take(id.len() as int) =~= id);
    assert(short.take(id.len() as int) =~= id);
    assert(long.take(id.len() as int) =~= id);
    assert(short.skip(id.len() as int + 1) =~= ticks);
    assert(long.skip(id.len() as int + 1) =~= tail);
    assert(ticks.take(ticks.len() as int) =~= ticks);
    assert(tail.take(ticks.len() as int) =~= ticks);
}

/// A number counts as it is read, and anything else as zero.
pub proof fn law_numbers_or_zero(s: Seq<char>, lo: int, hi: int)
    ensures
        text::parsed_int(s, lo, hi) matches Some(v) ==> number_or_zero(s, lo, hi) == v,
        text::parsed_int(s, lo, hi) is None ==> number_or_zero(s, lo, hi) == 0,
{
}

/// Ten thousand ticks are a millisecond, counted from 1970; what lies before
/// counts as zero.
pub proof fn law_ticks(ticks: i64)
    ensures
        ({
            let since = ticks - 621_355_968_000_000_000;
            let ms = ticks_to_ms(ticks);
            &&& since >= 0 ==> 10_000 * ms <= since < 10_000 * ms + 10_000
            &&& since < 0 ==> ms == 0
        }),
{
}

/// One more event counts in its own kind alone: 5 for a loss of power, 10 for
/// an unpairing, 18 for a fault of a link key. It is the latest event if it is
/// later than all before.
pub proof fn law_one_more_event(s: BthUsbSnapshot, id: i32, ms: u64)
    requires
        s.power_down_events < u32::MAX,
        s.disconnect_events < u32::MAX,
        s.link_key_faults < u32::MAX,
    ensures
        ({
            let n = counted(s, id, ms);
            &&& n.power_down_events == s.power_down_events + (if id == 5 { 1int } else { 0 })
            &&& n.disconnect_events == s.disconnect_events + (if id == 10 { 1int } else { 0 })
            &&& n.link_key_faults == s.link_key_faults + (if id == 18 { 1int } else { 0 })
            &&& ms > s.last_event_ts ==> n.last_event_ts == ms && n.last_event_id == id
            &&& ms <= s.last_event_ts ==> n.last_event_ts == s.last_event_ts && n.last_event_id
                == s.last_event_id
        }),
{
}

/// The log is read line by line; a blank line does not count.
pub proof fn law_log_line_by_line(lines: Seq<Seq<char>>, line: Seq<char>)
    ensures
        ({
            let t = text::trimmed(line);
            let all = lines.push(line);
            &&& t.len() == 0 ==> log_of(all) == log_of(lines) && lines_counted(all)
                == lines_counted(lines)
            &&& t.len() > 0 ==> log_of(all) == counted(
                log_of(lines),
                line_id(t),
                ticks_to_ms(line_ticks(t)),
            ) && lines_counted(all) == lines_counted(lines) + 1
            &&& log_of(Seq::empty()) == empty_log()
            &&& lines_counted(Seq::empty()) == 0
        }),
{
    assert(lines.push(line).drop_last() =~= lines);
}

/// The identifier of an event stands between the tag that opens it, whatever
/// else that tag says, and the next tag.
pub proof fn law_event_identifier(
    head: Seq<char>,
    said: Seq<char>,
    number: Seq<char>,
    tail: Seq<char>,
)
    requires
        forall|i: int|
            0 <= i < head.len() ==> !text::occurs_at(
                head + ("<EventID"@ + (said.push('>') + (number.push('<') + tail))),
                "<EventID"@,
                i,
            ),
        !said.contains('>'),
        !number.contains('<'),
    ensures
        event_id_in(head + ("<EventID"@ + (said.push('>') + (number.push('<') + tail))))
            == number_or_zero(text::trimmed(number), i32::MIN as int, i32::MAX as int),
{
    reveal_strlit("<EventID");
    let key = "<EventID"@;
    let end = number.push('<') + tail;
    let body = said.push('>') + end;
    let xml = head + (key + body);
    assert(xml.subrange(head.len() as int, (head.len() + key.len()) as int) =~= key);
    text::lemma_first_place(xml, key, Some(head.len() as int));
    let rest = xml.skip(head.len() as int);
    assert(rest =~= key + body);
    let opened = key + said;
    assert(!opened.contains('>')) by {
        if opened.contains('>') {
            let i = choose|i: int| 0 <= i < opened.len() && opened[i] == '>';
            if i < key.len() {
                assert(key[i] == '>');
            } else {
                assert(said[i - key.len()] == '>');
            }
        }
    }
    assert(rest =~= opened.push('>') + end);
    text::law_before_a_character(opened, '>', end);
    assert(rest.skip(opened.len() as int + 1) =~= end);
    text::law_before_a_character(number, '<', tail);
    assert(end.take(number.len() as int) =~= number);
}

/// What the application is told of each kind of event.
pub proof fn law_what_is_told_of_events(now: u64)
    ensures
        ({
            let lost = event_messages(5, now);
            let unpaired = event_messages(10, now);
            let fault = event_messages(18, now);
            &&& lost.len() == 2 && lost[0] == (IpcEventModel::BluetoothPowerEvent {
                event_type: "Power_Down"@,
                timestamp: now,
            }) && lost[1] is LogMessage
            &&& unpaired.len() == 2 && unpaired[0] is Disconnected && unpaired[1] is LogMessage
            &&& fault.len() == 1 && fault[0] is LogMessage
        }),
{
}

/// A monitor that starts remembers nothing, so that whatever the log holds
/// comes to light at the first reading.
pub proof fn law_fresh_monitor(snap: BthUsbSnapshot)
    ensures
        new_events(fresh_monitor(), snap).contains(5) == (snap.power_down_events > 0),
        new_events(fresh_monitor(), snap).contains(10) == (snap.disconnect_events > 0),
        new_events(fresh_monitor(), snap).contains(18) == (snap.link_key_faults > 0),
        fresh_monitor().last_seen_total == 0,
{
    law_growth_comes_to_light(fresh_monitor(), snap);
}

/// The texts that the application is told.
pub proof fn law_texts_of_events(now: u64)
    ensures
        ({
            let n = text::decimal(now as nat);
            let warned = |message: Seq<char>|
                IpcEventModel::LogMessage { level: "warn"@, message };
            &&& event_messages(5, now)[1] == warned(
                "BTHUSB power-down proxy (Event ID 5) detected at "@ + n,
            )
            &&& event_messages(10, now)[0] == (IpcEventModel::Disconnected {
                reason: "BTHUSB link key removed (Event ID 10)"@,
            })
            &&& event_messages(10, now)[1] == warned("Controller unpaired at "@ + n)
            &&& event_messages(18, now)[0] == warned(
                "BTHUSB link key persistence fault (Event ID 18) at "@ + n,
            )
        }),
{
}

/// An event without the tag of its identifier, or with one that does not end,
/// has the identifier 0.
pub proof fn law_no_event_identifier(xml: Seq<char>, start: int)
    ensures
        (forall|i: int| !text::occurs_at(xml, "<EventID"@, i)) ==> event_id_in(xml) == 0,
        0 <= start <= xml.len() && text::first_place(xml, "<EventID"@) == Some(start)
            && !xml.skip(start).contains('>') ==> event_id_in(xml) == 0,
{
    if forall|i: int| !text::occurs_at(xml, "<EventID"@, i) {
        text::lemma_first_place(xml, "<EventID"@, None);
    }
    if 0 <= start <= xml.len() && !xml.skip(start).contains('>') {
        let rest = xml.skip(start);
        text::lemma_before(rest, '>');
    }
}

} // verus!
