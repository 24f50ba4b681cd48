//! The controller slots: which controller is in which slot, which device paths
//! are taken, and which device is opened.

use vstd::prelude::*;

use crate::hid_parser::{NINTENDO_VID, PRO_CONTROLLER_PID};
use crate::state;
use crate::state::{
    ConnectionType, ControllerModel, ControllerState, IpcEvent, IpcEventModel, CONTROLLER_SLOTS,
};
use crate::schedule::DeviceCommand;
use crate::text;
use crate::text::{push_decimal, same};

verus! {

// ---------------------------------------------------------------------------
// Slots by mask
// ---------------------------------------------------------------------------

/// Slot `i` is marked in a mask.
pub open spec fn is_marked(mask: u8, i: nat) -> bool
    decreases i,
{
    if i == 0 {
        mask % 2 == 1
    } else {
        is_marked(mask / 2, (i - 1) as nat)
    }
}

/// The lowest slot that is not marked in the mask. Bits beyond the last slot
/// do not count.
pub fn lowest_free_slot(active_mask: u8) -> (r: Option<u8>)
    ensures
        match r {
            Some(i) => i < CONTROLLER_SLOTS && !is_marked(active_mask, i as nat) && forall|j: nat|
                j < i ==> #[trigger] is_marked(active_mask, j),
            None => forall|j: nat| j < CONTROLLER_SLOTS ==> #[trigger] is_marked(active_mask, j),
        },
{
    proof {
        reveal_with_fuel(is_marked, 5);
    }
    if active_mask % 2 == 0 {
        return Some(0);
    }
    if active_mask / 2 % 2 == 0 {
        return Some(1);
    }
    if active_mask / 2 / 2 % 2 == 0 {
        return Some(2);
    }
    if active_mask / 2 / 2 / 2 % 2 == 0 {
        return Some(3);
    }
    assert forall|j: nat| j < CONTROLLER_SLOTS implies #[trigger] is_marked(active_mask, j) by {
        assert(j == 0 || j == 1 || j == 2 || j == 3);
    }
    None
}

// ---------------------------------------------------------------------------
// Devices
// ---------------------------------------------------------------------------

/// A HID device of the system.
#[derive(Debug)]
pub struct HidEntry {
    pub vendor_id: u16,
    pub product_id: u16,
    pub path: String,
    pub usb: bool,
}

/// What a `HidEntry` holds.
#[verifier::ext_equal]
pub struct HidEntryModel {
    pub vendor_id: u16,
    pub product_id: u16,
    pub path: Seq<char>,
    pub usb: bool,
}

impl DeepView for HidEntry {
    type V = HidEntryModel;

    open spec fn deep_view(&self) -> HidEntryModel {
        HidEntryModel {
            vendor_id: self.vendor_id,
            product_id: self.product_id,
            path: self.path@,
            usb: self.usb,
        }
    }
}

/// The device is a Pro Controller.
pub open spec fn is_pro(e: HidEntryModel) -> bool {
    e.vendor_id == NINTENDO_VID && e.product_id == PRO_CONTROLLER_PID
}

/// How a device is attached.
pub open spec fn connection_of(e: HidEntryModel) -> ConnectionType {
    if e.usb {
        ConnectionType::Usb
    } else {
        ConnectionType::Bluetooth
    }
}

/// The path of every Pro Controller and how it is attached, in the order of
/// the devices.
pub open spec fn pro_devices(list: Seq<HidEntryModel>) -> Seq<(Seq<char>, ConnectionType)>
    decreases list.len(),
{
    if list.len() == 0 {
        Seq::empty()
    } else {
        let head = pro_devices(list.drop_last());
        if is_pro(list.last()) {
            head.push((list.last().path, connection_of(list.last())))
        } else {
            head
        }
    }
}

/// The path of a device and how it is attached.
#[derive(Debug)]
pub struct DevicePath {
    pub path: String,
    pub connection: ConnectionType,
}

impl DeepView for DevicePath {
    type V = (Seq<char>, ConnectionType);

    open spec fn deep_view(&self) -> (Seq<char>, ConnectionType) {
        (self.path@, self.connection)
    }
}

fn attached(e: &HidEntry) -> (r: ConnectionType)
    ensures
        r == connection_of(e.deep_view()),
{
    if e.usb {
        ConnectionType::Usb
    } else {
        ConnectionType::Bluetooth
    }
}

/// The path of every Pro Controller and how it is attached.
pub fn enumerate_pro_controllers(list: &Vec<HidEntry>) -> (r: Vec<DevicePath>)
    ensures
        r.deep_view() == pro_devices(list.deep_view()),
{
    let mut out: Vec<DevicePath> = Vec::new();
    let ghost all = list.deep_view();
    let mut i: usize = 0;
    assert(out.deep_view() =~= pro_devices(all.take(0)));
    while i < list.len()
        invariant
            i <= list@.len(),
            all == list.deep_view(),
            out.deep_view() == pro_devices(all.take(i as int)),
        decreases list@.len() - i,
    {
        let e: &HidEntry = &list[i];
        assert(all.take(i + 1).drop_last() =~= all.take(i as int));
        assert(all[i as int] == e.deep_view());
        if e.vendor_id == NINTENDO_VID && e.product_id == PRO_CONTROLLER_PID {
            let ghost was = out.deep_view();
            out.push(DevicePath { path: e.path.clone(), connection: attached(e) });
            assert(out.deep_view() =~= was.push((e.path@, connection_of(e.deep_view()))));
        }
        i += 1;
    }
    assert(all.take(i as int) =~= all);
    out
}

/// A device is the one to open: a Pro Controller, and the claimed one where a
/// path is claimed.
pub open spec fn is_wanted(e: HidEntryModel, claimed: Option<Seq<char>>) -> bool {
    is_pro(e) && match claimed {
        Some(path) => e.path == path,
        None => true,
    }
}

/// The error for a device that is not there.
pub open spec fn not_found_text(claimed: Option<Seq<char>>) -> Seq<char> {
    match claimed {
        Some(path) => "claimed path "@ + path + " not found"@,
        None => "No Pro Controller (VID=0x057E, PID=0x2009) found in HID enumeration"@,
    }
}

/// The first device that is to be opened.
pub fn try_open_path(list: &Vec<HidEntry>, claimed: &Option<String>) -> (r: Result<usize, String>)
    ensures
        match r {
            Ok(i) => i < list@.len() && is_wanted(list.deep_view()[i as int], claimed.deep_view())
                && forall|j: int|
                0 <= j < i ==> !is_wanted(#[trigger] list.deep_view()[j], claimed.deep_view()),
            Err(e) => e@ == not_found_text(claimed.deep_view()) && forall|j: int|
                0 <= j < list@.len() ==> !is_wanted(
                    #[trigger] list.deep_view()[j],
                    claimed.deep_view(),
                ),
        },
{
    let mut i: usize = 0;
    while i < list.len()
        invariant
            i <= list@.len(),
            forall|j: int|
                0 <= j < i ==> !is_wanted(#[trigger] list.deep_view()[j], claimed.deep_view()),
        decreases list@.len() - i,
    {
        let e: &HidEntry = &list[i];
        assert(list.deep_view()[i as int] == e.deep_view());
        let fits: bool = match claimed {
            Some(path) => same(e.path.as_str(), path.as_str()),
            None => true,
        };
        if e.vendor_id == NINTENDO_VID && e.product_id == PRO_CONTROLLER_PID && fits {
            return Ok(i);
        }
        i += 1;
    }
    match claimed {
        Some(path) => {
            let mut text: String = String::new();
            text.append("claimed path ");
            text.append(path.as_str());
            text.append(" not found");
            assert(text@ =~= "claimed path "@ + path@ + " not found"@);
            Err(text)
        },
        None => Err(
            "No Pro Controller (VID=0x057E, PID=0x2009) found in HID enumeration".to_string(),
        ),
    }
}

/// Milliseconds before another attempt to open a device.
pub const REOPEN_DELAY_MS: u64 = 3000;

/// What follows a device that could not be opened.
#[derive(Debug)]
pub struct OpenFailure {
    /// What the application is told.
    pub event: Option<IpcEvent>,
    /// Milliseconds before the next attempt; `None` to give up.
    pub retry_after_ms: Option<u64>,
}

/// What follows a device that could not be opened: with a claimed path there
/// is no further attempt, without one there is. The application is told of
/// the error, where there is one.
pub fn open_failed(claimed: bool, error: &Option<String>) -> (r: OpenFailure)
    ensures
        r.retry_after_ms == (if claimed {
            None
        } else {
            Some(REOPEN_DELAY_MS)
        }),
        r.event.deep_view() == (match error.deep_view() {
            Some(e) => Some(IpcEventModel::Disconnected { reason: "open failed: "@ + e }),
            None => None,
        }),
{
    let event: Option<IpcEvent> = match error {
        Some(e) => {
            let mut reason: String = String::new();
            reason.append("open failed: ");
            reason.append(e.as_str());
            assert(reason@ =~= "open failed: "@ + e@);
            Some(IpcEvent::Disconnected { reason })
        },
        None => None,
    };
    let retry_after_ms: Option<u64> = if claimed { None } else { Some(REOPEN_DELAY_MS) };
    OpenFailure { event, retry_after_ms }
}

// ---------------------------------------------------------------------------
// Claimed paths
// ---------------------------------------------------------------------------

/// The device paths that are taken.
#[derive(Debug)]
pub struct ClaimedPaths {
    paths: Vec<String>,
}

impl View for ClaimedPaths {
    type V = Set<Seq<char>>;

    closed spec fn view(&self) -> Set<Seq<char>> {
        Set::new(|p: Seq<char>| exists|i: int| 0 <= i < self.paths@.len() && self.paths@[i]@ == p)
    }
}

impl ClaimedPaths {
    /// No path is taken.
    pub fn new() -> (r: ClaimedPaths)
        ensures
            r@ == Set::<Seq<char>>::empty(),
    {
        let r = ClaimedPaths { paths: Vec::new() };
        assert(r@ =~= Set::<Seq<char>>::empty());
        r
    }

    /// Whether a path is taken.
    pub fn contains(&self, path: &str) -> (r: bool)
        ensures
            r == self@.contains(path@),
    {
        let mut i: usize = 0;
        while i < self.paths.len()
            invariant
                i <= self.paths@.len(),
                forall|j: int| 0 <= j < i ==> self.paths@[j]@ != path@,
            decreases self.paths@.len() - i,
        {
            if same(self.paths[i].as_str(), path) {
                assert(self.paths@[i as int]@ == path@);
                return true;
            }
            i += 1;
        }
        false
    }

    /// Takes a path.
    pub fn insert(&mut self, path: &str)
        ensures
            final(self)@ == old(self)@.insert(path@),
    {
        let ghost before = self.paths@;
        self.paths.push(path.to_owned());
        proof {
            let after = self.paths@;
            assert forall|p: Seq<char>| self@.contains(p) == old(self)@.insert(path@).contains(
                p,
            ) by {
                if old(self)@.contains(p) {
                    let i = choose|i: int| 0 <= i < before.len() && before[i]@ == p;
                    assert(after[i]@ == p);
                }
                if p == path@ {
                    assert(after[before.len() as int]@ == p);
                }
                if self@.contains(p) {
                    let i = choose|i: int| 0 <= i < after.len() && after[i]@ == p;
                    if i < before.len() {
                        assert(before[i]@ == p);
                    }
                }
            }
            assert(self@ =~= old(self)@.insert(path@));
        }
    }

    /// Gives a path free.
    pub fn remove(&mut self, path: &str)
        ensures
            final(self)@ == old(self)@.remove(path@),
    {
        let mut kept: Vec<String> = Vec::new();
        let mut i: usize = 0;
        while i < self.paths.len()
            invariant
                i <= self.paths@.len(),
                forall|j: int|
                    0 <= j < i && self.paths@[j]@ != path@ ==> exists|k: int|
                        0 <= k < kept@.len() && (#[trigger] kept@[k])@ == self.paths@[j]@,
                forall|k: int|
                    0 <= k < kept@.len() ==> (#[trigger] kept@[k])@ != path@ && exists|j: int|
                        0 <= j < i && self.paths@[j]@ == kept@[k]@,
            decreases self.paths@.len() - i,
        {
            if !same(self.paths[i].as_str(), path) {
                let ghost was = kept@;
                let item: String = self.paths[i].clone();
                kept.push(item);
                proof {
                    assert forall|j: int|
                        0 <= j < i + 1 && self.paths@[j]@ != path@ implies exists|k: int|
                        0 <= k < kept@.len() && (#[trigger] kept@[k])@ == self.paths@[j]@ by {
                        if j < i {
                            let k = choose|k: int|
                                0 <= k < was.len() && (#[trigger] was[k])@ == self.paths@[j]@;
                            assert(kept@[k]@ == self.paths@[j]@);
                        } else {
                            assert(kept@[was.len() as int]@ == self.paths@[j]@);
                        }
                    }
                    assert forall|k: int| 0 <= k < kept@.len() implies (#[trigger] kept@[k])@
                        != path@ && exists|j: int|
                        0 <= j < i + 1 && self.paths@[j]@ == kept@[k]@ by {
                        if k < was.len() {
                            assert(was[k] == kept@[k]);
                            let j = choose|j: int| 0 <= j < i && self.paths@[j]@ == was[k]@;
                            assert(self.paths@[j]@ == kept@[k]@);
                        } else {
                            assert(self.paths@[i as int]@ == kept@[k]@);
                        }
                    }
                }
            }
            i += 1;
        }
        let ghost before = self.paths@;
        self.paths = kept;
        proof {
            let after = self.paths@;
            assert forall|p: Seq<char>| self@.contains(p) == old(self)@.remove(path@).contains(
                p,
            ) by {
                if self@.contains(p) {
                    let k = choose|k: int| 0 <= k < after.len() && after[k]@ == p;
                    let j = choose|j: int| 0 <= j < before.len() && before[j]@ == after[k]@;
                    assert(before[j]@ == p);
                }
                if old(self)@.contains(p) && p != path@ {
                    let j = choose|j: int| 0 <= j < before.len() && before[j]@ == p;
                    let k = choose|k: int| 0 <= k < after.len() && (#[trigger] after[k])@
                        == before[j]@;
                    assert(after[k]@ == p);
                }
            }
            assert(self@ =~= old(self)@.remove(path@));
        }
    }
}

// ---------------------------------------------------------------------------
// The slot table
// ---------------------------------------------------------------------------

/// Which slots are served, by the loop of which device, and which paths are
/// taken.
#[derive(Debug)]
pub struct SlotTable {
    running: Vec<bool>,
    paths: Vec<Option<String>>,
    claimed: ClaimedPaths,
}

/// What a `SlotTable` holds.
#[verifier::ext_equal]
pub struct SlotModel {
    pub running: Seq<bool>,
    pub paths: Seq<Option<Seq<char>>>,
    pub claimed: Set<Seq<char>>,
}

/// The lowest slot that is not served; the number of slots where all are.
pub open spec fn first_free(running: Seq<bool>) -> int
    decreases running.len(),
{
    if running.len() == 0 || !running[0] {
        0
    } else {
        1 + first_free(running.drop_first())
    }
}

pub proof fn lemma_first_free(running: Seq<bool>)
    ensures
        0 <= first_free(running) <= running.len(),
        first_free(running) < running.len() ==> !running[first_free(running)],
        forall|j: int| 0 <= j < first_free(running) ==> running[j],
    decreases running.len(),
{
    if running.len() > 0 && running[0] {
        let rest = running.drop_first();
        lemma_first_free(rest);
        assert forall|j: int| 0 <= j < first_free(running) implies running[j] by {
            if j > 0 {
                assert(rest[j - 1]);
            }
        }
    }
}

proof fn lemma_first_free_is(running: Seq<bool>, i: int)
    requires
        0 <= i <= running.len(),
        i < running.len() ==> !running[i],
        forall|j: int| 0 <= j < i ==> running[j],
    ensures
        first_free(running) == i,
{
    lemma_first_free(running);
    let f = first_free(running);
    if f < i {
        assert(running[f]);
    }
}

impl SlotModel {
    pub open spec fn wf(self) -> bool {
        self.running.len() == CONTROLLER_SLOTS && self.paths.len() == CONTROLLER_SLOTS
    }

    /// One slot is given free where its loop has ended.
    pub open spec fn reaped_slot(self, slot: int, ended: bool) -> SlotModel {
        if self.running[slot] && ended {
            SlotModel {
                running: self.running.update(slot, false),
                paths: self.paths.update(slot, None),
                claimed: match self.paths[slot] {
                    Some(p) => self.claimed.remove(p),
                    None => self.claimed,
                },
            }
        } else {
            self
        }
    }

    /// The first `n` slots are given free where their loops have ended.
    pub open spec fn reaped(self, ended: Seq<bool>, n: nat) -> SlotModel
        decreases n,
    {
        if n == 0 {
            self
        } else {
            self.reaped(ended, (n - 1) as nat).reaped_slot(n - 1, ended[n - 1])
        }
    }

    /// A device gets a slot.
    pub open spec fn with_device(self, slot: int, path: Seq<char>) -> SlotModel {
        SlotModel {
            running: self.running.update(slot, true),
            paths: self.paths.update(slot, Some(path)),
            claimed: self.claimed.insert(path),
        }
    }

    /// The table after devices have been given slots: each device whose path
    /// is not taken gets the lowest free slot, until none is free.
    pub open spec fn assigned(self, devices: Seq<(Seq<char>, ConnectionType)>) -> SlotModel
        decreases devices.len(),
    {
        if devices.len() == 0 {
            self
        } else if self.claimed.contains(devices[0].0) {
            self.assigned(devices.drop_first())
        } else if first_free(self.running) >= CONTROLLER_SLOTS {
            self
        } else {
            self.with_device(first_free(self.running), devices[0].0).assigned(devices.drop_first())
        }
    }

    /// The slots that are given, in order, and the devices that get them.
    pub open spec fn assignments(self, devices: Seq<(Seq<char>, ConnectionType)>) -> Seq<
        (u8, Seq<char>),
    >
        decreases devices.len(),
    {
        if devices.len() == 0 {
            Seq::empty()
        } else if self.claimed.contains(devices[0].0) {
            self.assignments(devices.drop_first())
        } else if first_free(self.running) >= CONTROLLER_SLOTS {
            Seq::empty()
        } else {
            let slot = first_free(self.running);
            seq![(slot as u8, devices[0].0)] + self.with_device(slot, devices[0].0).assignments(
                devices.drop_first(),
            )
        }
    }
}

/// A slot that is to be served, and the device that is in it.
#[derive(Debug)]
pub struct Assignment {
    pub slot: u8,
    pub path: String,
}

impl DeepView for Assignment {
    type V = (u8, Seq<char>);

    open spec fn deep_view(&self) -> (u8, Seq<char>) {
        (self.slot, self.path@)
    }
}

impl View for SlotTable {
    type V = SlotModel;

    closed spec fn view(&self) -> SlotModel {
        SlotModel {
            running: self.running@,
            paths: self.paths.deep_view(),
            claimed: self.claimed@,
        }
    }
}

impl SlotTable {
    /// No slot is served.
    pub fn new() -> (r: SlotTable)
        ensures
            r@.wf(),
            r@.running == seq![false, false, false, false],
            r@.paths == seq![None::<Seq<char>>, None, None, None],
            r@.claimed == Set::<Seq<char>>::empty(),
    {
        let running: Vec<bool> = vec![false, false, false, false];
        let paths: Vec<Option<String>> = vec![None, None, None, None];
        let r = SlotTable { running, paths, claimed: ClaimedPaths::new() };
        assert(r@.running =~= seq![false, false, false, false]);
        assert(r@.paths =~= seq![None::<Seq<char>>, None, None, None]);
        r
    }

    /// Whether a path is taken.
    pub fn is_claimed(&self, path: &str) -> (r: bool)
        ensures
            r == self@.claimed.contains(path@),
    {
        self.claimed.contains(path)
    }

    /// Gives a path free whose device has gone. Its slot stays taken until its
    /// loop has ended.
    pub fn release(&mut self, path: &str)
        ensures
            final(self)@ == (SlotModel { claimed: old(self)@.claimed.remove(path@), ..old(self)@ }),
    {
        self.claimed.remove(path);
    }

    /// Gives the slots free whose loops have ended, and the paths that they
    /// hold.
    pub fn reap(&mut self, ended: &[bool])
        requires
            old(self)@.wf(),
            ended@.len() == CONTROLLER_SLOTS,
        ensures
            final(self)@ == old(self)@.reaped(ended@, CONTROLLER_SLOTS as nat),
            final(self)@.wf(),
    {
        let mut slot: usize = 0;
        while slot < CONTROLLER_SLOTS
            invariant
                slot <= CONTROLLER_SLOTS,
                ended@.len() == CONTROLLER_SLOTS,
                self@.wf(),
                self@ == old(self)@.reaped(ended@, slot as nat),
            decreases CONTROLLER_SLOTS - slot,
        {
            let ghost before = self@;
            assert(before.running == self.running@);
            if self.running[slot] && ended[slot] {
                assert(before.paths[slot as int] == self.paths@[slot as int].deep_view());
                let held: Option<String> = match &self.paths[slot] {
                    Some(p) => Some(p.clone()),
                    None => None,
                };
                self.paths.set(slot, None);
                self.running.set(slot, false);
                match &held {
                    Some(p) => self.claimed.remove(p.as_str()),
                    None => {},
                }
                assert(self@ =~= before.reaped_slot(slot as int, true));
            }
            slot += 1;
        }
    }

    /// Gives devices slots: each whose path is not taken gets the lowest free
    /// slot, until none is free.
    pub fn assign(&mut self, devices: &Vec<DevicePath>) -> (r: Vec<Assignment>)
        requires
            old(self)@.wf(),
        ensures
            final(self)@ == old(self)@.assigned(devices.deep_view()),
            r.deep_view() == old(self)@.assignments(devices.deep_view()),
            final(self)@.wf(),
    {
        let mut out: Vec<Assignment> = Vec::new();
        let ghost all = devices.deep_view();
        let mut i: usize = 0;
        assert(all.skip(0) =~= all);
        assert(out.deep_view() + old(self)@.assignments(all) =~= old(self)@.assignments(all));
        while i < devices.len()
            invariant
                i <= devices@.len(),
                all == devices.deep_view(),
                self@.wf(),
                self@.assigned(all.skip(i as int)) == old(self)@.assigned(all),
                out.deep_view() + self@.assignments(all.skip(i as int)) == old(self)@.assignments(
                    all,
                ),
            decreases devices@.len() - i,
        {
            let ghost rest = all.skip(i as int);
            let ghost before = self@;
            let device: &DevicePath = &devices[i];
            assert(rest[0] == device.deep_view());
            assert(rest.drop_first() =~= all.skip(i + 1));
            if self.claimed.contains(device.path.as_str()) {
                i += 1;
                continue ;
            }
            let free: usize = self.free_slot();
            if free >= CONTROLLER_SLOTS {
                assert(out.deep_view() =~= old(self)@.assignments(all));
                return out;
            }
            self.claimed.insert(device.path.as_str());
            self.paths.set(free, Some(device.path.clone()));
            self.running.set(free, true);
            assert(self@ =~= before.with_device(free as int, device.path@));
            let ghost was = out.deep_view();
            out.push(Assignment { slot: free as u8, path: device.path.clone() });
            assert(out.deep_view() =~= was.push((free as u8, device.path@)));
            assert(out.deep_view() + self@.assignments(all.skip(i + 1)) =~= was
                + before.assignments(rest));
            i += 1;
        }
        assert(all.skip(i as int) =~= Seq::empty());
        assert(out.deep_view() =~= old(self)@.assignments(all));
        out
    }

    /// The lowest slot that is not served; the number of slots where all are.
    fn free_slot(&self) -> (r: usize)
        requires
            self@.wf(),
        ensures
            r == first_free(self@.running),
            r <= CONTROLLER_SLOTS,
    {
        let mut i: usize = 0;
        while i < CONTROLLER_SLOTS
            invariant
                i <= CONTROLLER_SLOTS,
                self@.wf(),
                forall|j: int| 0 <= j < i ==> self@.running[j],
            decreases CONTROLLER_SLOTS - i,
        {
            if !self.running[i] {
                proof {
                    lemma_first_free_is(self@.running, i as int);
                }
                return i;
            }
            i += 1;
        }
        proof {
            lemma_first_free_is(self@.running, i as int);
        }
        i
    }
}

/// A device whose path is taken is given no slot, and no device is given two.
pub proof fn law_taken_paths_get_no_slot(
    m: SlotModel,
    devices: Seq<(Seq<char>, ConnectionType)>,
    i: int,
    j: int,
)
    requires
        m.wf(),
        0 <= i < m.assignments(devices).len(),
        0 <= j < m.assignments(devices).len(),
    ensures
        !m.claimed.contains(m.assignments(devices)[i].1),
        i != j ==> m.assignments(devices)[i].1 != m.assignments(devices)[j].1,
{
    lemma_assigned_path_was_free(m, devices, i);
    if i < j {
        lemma_paths_differ(m, devices, i, j);
    } else if j < i {
        lemma_paths_differ(m, devices, j, i);
    }
}

proof fn lemma_paths_differ(
    m: SlotModel,
    devices: Seq<(Seq<char>, ConnectionType)>,
    i: int,
    j: int,
)
    requires
        m.wf(),
        0 <= i < j < m.assignments(devices).len(),
    ensures
        m.assignments(devices)[i].1 != m.assignments(devices)[j].1,
    decreases devices.len(),
{
    if m.claimed.contains(devices[0].0) {
        lemma_paths_differ(m, devices.drop_first(), i, j);
    } else {
        let slot = first_free(m.running);
        lemma_first_free(m.running);
        let next = m.with_device(slot, devices[0].0);
        let rest = devices.drop_first();
        assert(m.assignments(devices) =~= seq![(slot as u8, devices[0].0)] + next.assignments(
            rest,
        ));
        if i == 0 {
            lemma_assigned_path_was_free(next, rest, j - 1);
        } else {
            lemma_paths_differ(next, rest, i - 1, j - 1);
        }
    }
}

proof fn lemma_assigned_path_was_free(
    m: SlotModel,
    devices: Seq<(Seq<char>, ConnectionType)>,
    i: int,
)
    requires
        0 <= i < m.assignments(devices).len(),
    ensures
        !m.claimed.contains(m.assignments(devices)[i].1),
    decreases devices.len(),
{
    if m.claimed.contains(devices[0].0) {
        lemma_assigned_path_was_free(m, devices.drop_first(), i);
    } else {
        let slot = first_free(m.running);
        let next = m.with_device(slot, devices[0].0);
        let rest = devices.drop_first();
        assert(m.assignments(devices) =~= seq![(slot as u8, devices[0].0)] + next.assignments(
            rest,
        ));
        if i > 0 {
            lemma_assigned_path_was_free(next, rest, i - 1);
        }
    }
}

/// A slot that is given was free and is served afterwards, and no slot is
/// given twice.
pub proof fn law_slots_are_given_once(
    m: SlotModel,
    devices: Seq<(Seq<char>, ConnectionType)>,
    i: int,
    j: int,
)
    requires
        m.wf(),
        0 <= i < m.assignments(devices).len(),
        0 <= j < m.assignments(devices).len(),
    ensures
        m.assignments(devices)[i].0 < CONTROLLER_SLOTS,
        !m.running[m.assignments(devices)[i].0 as int],
        m.assigned(devices).running[m.assignments(devices)[i].0 as int],
        i != j ==> m.assignments(devices)[i].0 != m.assignments(devices)[j].0,
{
    lemma_given_slot_was_free(m, devices, i);
    if i < j {
        lemma_slots_differ(m, devices, i, j);
    } else if j < i {
        lemma_slots_differ(m, devices, j, i);
    }
}

proof fn lemma_slots_differ(
    m: SlotModel,
    devices: Seq<(Seq<char>, ConnectionType)>,
    i: int,
    j: int,
)
    requires
        m.wf(),
        0 <= i < j < m.assignments(devices).len(),
    ensures
        m.assignments(devices)[i].0 != m.assignments(devices)[j].0,
    decreases devices.len(),
{
    if m.claimed.contains(devices[0].0) {
        lemma_slots_differ(m, devices.drop_first(), i, j);
    } else {
        let slot = first_free(m.running);
        lemma_first_free(m.running);
        let next = m.with_device(slot, devices[0].0);
        let rest = devices.drop_first();
        assert(m.assignments(devices) =~= seq![(slot as u8, devices[0].0)] + next.assignments(
            rest,
        ));
        if i == 0 {
            lemma_given_slot_was_free(next, rest, j - 1);
        } else {
            lemma_slots_differ(next, rest, i - 1, j - 1);
        }
    }
}

proof fn lemma_given_slot_was_free(m: SlotModel, devices: Seq<(Seq<char>, ConnectionType)>, i: int)
    requires
        m.wf(),
        0 <= i < m.assignments(devices).len(),
    ensures
        m.assignments(devices)[i].0 < CONTROLLER_SLOTS,
        !m.running[m.assignments(devices)[i].0 as int],
        m.assigned(devices).running[m.assignments(devices)[i].0 as int],
    decreases devices.len(),
{
    if m.claimed.contains(devices[0].0) {
        lemma_given_slot_was_free(m, devices.drop_first(), i);
    } else {
        let slot = first_free(m.running);
        lemma_first_free(m.running);
        let next = m.with_device(slot, devices[0].0);
        let rest = devices.drop_first();
        assert(m.assignments(devices) =~= seq![(slot as u8, devices[0].0)] + next.assignments(
            rest,
        ));
        if i > 0 {
            lemma_given_slot_was_free(next, rest, i - 1);
        } else {
            lemma_served_slots_stay(next, rest, slot);
        }
    }
}

/// A slot that is served stays served while devices are given slots.
proof fn lemma_served_slots_stay(m: SlotModel, devices: Seq<(Seq<char>, ConnectionType)>, slot: int)
    requires
        m.wf(),
        0 <= slot < CONTROLLER_SLOTS,
        m.running[slot],
    ensures
        m.assigned(devices).running[slot],
    decreases devices.len(),
{
    if devices.len() > 0 {
        if m.claimed.contains(devices[0].0) {
            lemma_served_slots_stay(m, devices.drop_first(), slot);
        } else if first_free(m.running) < CONTROLLER_SLOTS {
            lemma_first_free(m.running);
            lemma_served_slots_stay(
                m.with_device(first_free(m.running), devices[0].0),
                devices.drop_first(),
                slot,
            );
        }
    }
}

/// How many slots are not served.
pub open spec fn free_slots(running: Seq<bool>) -> nat
    decreases running.len(),
{
    if running.len() == 0 {
        0
    } else {
        free_slots(running.drop_last()) + (if running.last() {
            0nat
        } else {
            1
        })
    }
}

proof fn lemma_taking_a_slot(running: Seq<bool>, slot: int)
    requires
        0 <= slot < running.len(),
        !running[slot],
    ensures
        free_slots(running.update(slot, true)) + 1 == free_slots(running),
    decreases running.len(),
{
    let after = running.update(slot, true);
    if slot == running.len() - 1 {
        assert(after.drop_last() =~= running.drop_last());
    } else {
        assert(after.drop_last() =~= running.drop_last().update(slot, true));
        lemma_taking_a_slot(running.drop_last(), slot);
    }
}

/// No more slots are given than are free, so that no more controllers are
/// served than there are slots.
pub proof fn law_no_more_slots_than_are_free(
    m: SlotModel,
    devices: Seq<(Seq<char>, ConnectionType)>,
)
    requires
        m.wf(),
    ensures
        m.assignments(devices).len() <= free_slots(m.running) <= CONTROLLER_SLOTS,
        free_slots(m.assigned(devices).running) + m.assignments(devices).len() == free_slots(
            m.running,
        ),
    decreases devices.len(),
{
    reveal_with_fuel(free_slots, 5);
    if devices.len() > 0 {
        if m.claimed.contains(devices[0].0) {
            law_no_more_slots_than_are_free(m, devices.drop_first());
        } else if first_free(m.running) < CONTROLLER_SLOTS {
            let slot = first_free(m.running);
            lemma_first_free(m.running);
            lemma_taking_a_slot(m.running, slot);
            law_no_more_slots_than_are_free(
                m.with_device(slot, devices[0].0),
                devices.drop_first(),
            );
        }
    }
}

/// A slot whose loop has ended is free again, and so is the path that it held;
/// the other slots stay as they are.
pub proof fn law_ended_loops_give_free(m: SlotModel, ended: Seq<bool>, slot: int)
    requires
        m.wf(),
        ended.len() == CONTROLLER_SLOTS,
        0 <= slot < CONTROLLER_SLOTS,
    ensures
        ({
            let after = m.reaped(ended, CONTROLLER_SLOTS as nat);
            &&& after.running[slot] == (m.running[slot] && !ended[slot])
            &&& m.running[slot] && ended[slot] ==> after.paths[slot] is None
            &&& m.running[slot] && ended[slot] && m.paths[slot] is Some
                ==> !after.claimed.contains(m.paths[slot]->0)
            &&& !(m.running[slot] && ended[slot]) ==> after.paths[slot] == m.paths[slot]
        }),
{
    reveal_with_fuel(SlotModel::reaped, 5);
}

// ---------------------------------------------------------------------------
// The controllers
// ---------------------------------------------------------------------------

/// The controllers in their slots and the one that is selected.
#[derive(Debug)]
pub struct SharedState {
    slots: Vec<ControllerState>,
    active: Vec<bool>,
    pub selected_slot: u8,
}

/// What a `SharedState` holds.
#[verifier::ext_equal]
pub struct SharedModel {
    pub slots: Seq<ControllerModel>,
    pub active: Seq<bool>,
    pub selected_slot: u8,
}

impl View for SharedState {
    type V = SharedModel;

    closed spec fn view(&self) -> SharedModel {
        SharedModel {
            slots: self.slots.deep_view(),
            active: self.active@,
            selected_slot: self.selected_slot,
        }
    }
}

impl SharedModel {
    pub open spec fn wf(self) -> bool {
        self.slots.len() == CONTROLLER_SLOTS && self.active.len() == CONTROLLER_SLOTS
    }

    /// The controller in a slot is connected or not. A slot that does not exist
    /// changes nothing.
    pub open spec fn marked(self, slot: u8, connected: bool) -> SharedModel {
        if slot < CONTROLLER_SLOTS {
            SharedModel {
                slots: self.slots.update(
                    slot as int,
                    ControllerModel { connected, ..self.slots[slot as int] },
                ),
                active: self.active.update(slot as int, connected),
                ..self
            }
        } else {
            self
        }
    }

    /// The slot that is selected; the last one where the selection lies beyond
    /// it.
    pub open spec fn selected(self) -> int {
        if self.selected_slot < CONTROLLER_SLOTS {
            self.selected_slot as int
        } else {
            CONTROLLER_SLOTS - 1
        }
    }
}

/// The error for a slot that does not exist.
pub open spec fn invalid_slot_text(slot: u8) -> Seq<char> {
    "Invalid slot "@ + text::decimal(slot as nat)
}

fn invalid_slot(slot: u8) -> (r: String)
    ensures
        r@ == invalid_slot_text(slot),
{
    let mut text: String = String::new();
    text.append("Invalid slot ");
    push_decimal(&mut text, slot as u64);
    assert(text@ =~= invalid_slot_text(slot));
    text
}

impl SharedState {
    /// Four controllers that nothing has been heard of; the first is selected.
    pub fn new() -> (r: SharedState)
        ensures
            r@.wf(),
            r@.slots == seq![
                state::fresh_controller(0),
                state::fresh_controller(1),
                state::fresh_controller(2),
                state::fresh_controller(3),
            ],
            r@.active == seq![false, false, false, false],
            r@.selected_slot == 0,
    {
        let slots: Vec<ControllerState> = vec![
            ControllerState::in_slot(0),
            ControllerState::in_slot(1),
            ControllerState::in_slot(2),
            ControllerState::in_slot(3),
        ];
        let active: Vec<bool> = vec![false, false, false, false];
        let r = SharedState { slots, active, selected_slot: 0 };
        assert(r@.slots =~= seq![
            state::fresh_controller(0),
            state::fresh_controller(1),
            state::fresh_controller(2),
            state::fresh_controller(3),
        ]);
        assert(r@.active =~= seq![false, false, false, false]);
        r
    }

    /// The slot that is selected, whether it exists or not.
    pub fn selection(&self) -> (r: u8)
        ensures
            r == self@.selected_slot,
    {
        self.selected_slot
    }

    /// The controller in the selected slot.
    pub fn active_controller(&self) -> (r: &ControllerState)
        requires
            self@.wf(),
        ensures
            r.deep_view() == self@.slots[self@.selected()],
    {
        let i: usize = if (self.selected_slot as usize) < CONTROLLER_SLOTS {
            self.selected_slot as usize
        } else {
            CONTROLLER_SLOTS - 1
        };
        &self.slots[i]
    }

    /// The controller in a slot; one that nothing has been heard of where there
    /// is no such slot.
    pub fn get_controller(&self, slot: u8) -> (r: ControllerState)
        requires
            self@.wf(),
        ensures
            r.deep_view() == (if slot < CONTROLLER_SLOTS {
                self@.slots[slot as int]
            } else {
                state::fresh_controller(0)
            }),
    {
        if slot as usize >= CONTROLLER_SLOTS {
            return ControllerState::default();
        }
        self.slots[slot as usize].clone()
    }

    /// All controllers, in the order of their slots.
    pub fn get_controllers(&self) -> (r: Vec<ControllerState>)
        requires
            self@.wf(),
        ensures
            r.deep_view() == self@.slots,
    {
        let mut out: Vec<ControllerState> = Vec::new();
        let mut slot: usize = 0;
        while slot < CONTROLLER_SLOTS
            invariant
                slot <= CONTROLLER_SLOTS,
                self@.wf(),
                out@.len() == slot,
                forall|j: int|
                    0 <= j < slot ==> (#[trigger] out@[j]).deep_view() == self@.slots[j],
            decreases CONTROLLER_SLOTS - slot,
        {
            out.push(self.slots[slot].clone());
            slot += 1;
        }
        assert(out.deep_view() =~= self@.slots);
        out
    }

    /// Replaces the controller in a slot.
    pub fn set_controller(&mut self, slot: u8, controller: ControllerState)
        requires
            old(self)@.wf(),
            slot < CONTROLLER_SLOTS,
        ensures
            final(self)@ == (SharedModel {
                slots: old(self)@.slots.update(slot as int, controller.deep_view()),
                ..old(self)@
            }),
    {
        let ghost before = self@;
        self.slots.set(slot as usize, controller);
        assert(self@.slots =~= before.slots.update(slot as int, controller.deep_view()));
    }

    /// Selects a slot. An error names a slot that does not exist, and nothing
    /// changes.
    pub fn set_active_slot(&mut self, slot: u8) -> (r: Result<(), String>)
        ensures
            match r {
                Ok(_) => slot < CONTROLLER_SLOTS && final(self)@ == (SharedModel {
                    selected_slot: slot,
                    ..old(self)@
                }),
                Err(e) => slot >= CONTROLLER_SLOTS && e@ == invalid_slot_text(slot)
                    && final(self)@ == old(self)@,
            },
    {
        if slot as usize >= CONTROLLER_SLOTS {
            return Err(invalid_slot(slot));
        }
        self.selected_slot = slot;
        Ok(())
    }

    /// Whether a controller is connected in a slot.
    pub fn is_slot_active(&self, slot: u8) -> (r: bool)
        requires
            self@.wf(),
        ensures
            r == (slot < CONTROLLER_SLOTS && self@.active[slot as int]),
    {
        (slot as usize) < CONTROLLER_SLOTS && self.active[slot as usize]
    }

    /// Marks the controller in a slot as connected or not. A slot that does
    /// not exist changes nothing.
    pub fn set_slot_connected(&mut self, slot: u8, connected: bool)
        requires
            old(self)@.wf(),
        ensures
            final(self)@ == old(self)@.marked(slot, connected),
    {
        if slot as usize >= CONTROLLER_SLOTS {
            return;
        }
        let ghost before = self@;
        let mut controller: ControllerState = self.slots[slot as usize].clone();
        controller.connected = connected;
        self.set_controller(slot, controller);
        self.active.set(slot as usize, connected);
        assert(self@.active =~= before.active.update(slot as int, connected));
    }

    /// The write for the controller in a slot. An error says that there is no
    /// such slot or no controller in it.
    pub fn send_device_command_to_slot(&self, slot: u8, data: Vec<u8>) -> (r: Result<
        DeviceCommand,
        String,
    >)
        requires
            self@.wf(),
        ensures
            match r {
                Ok(DeviceCommand::Write(bytes)) => slot < CONTROLLER_SLOTS
                    && self@.active[slot as int] && bytes@ == data@,
                Err(e) => if slot >= CONTROLLER_SLOTS {
                    e@ == invalid_slot_text(slot)
                } else {
                    !self@.active[slot as int] && e@ == "Controller not connected"@
                },
            },
    {
        if slot as usize >= CONTROLLER_SLOTS {
            return Err(invalid_slot(slot));
        }
        if !self.active[slot as usize] {
            return Err("Controller not connected".to_string());
        }
        Ok(DeviceCommand::Write(data))
    }
}

/// The loop of one device: its slot and the path that it has claimed.
#[derive(Debug)]
pub struct Worker {
    pub slot: u8,
    pub claimed_path: Option<String>,
}

impl Worker {
    /// Marks the device as connected or not. One that has gone gives its path
    /// free, for another scan to find.
    pub fn set_connected(
        &mut self,
        connected: bool,
        table: &mut SlotTable,
        shared: &mut SharedState,
    )
        requires
            old(shared)@.wf(),
        ensures
            final(self).slot == old(self).slot,
            final(self).claimed_path.deep_view() == (if connected {
                old(self).claimed_path.deep_view()
            } else {
                None
            }),
            final(table)@ == (match old(self).claimed_path.deep_view() {
                Some(p) if !connected => SlotModel {
                    claimed: old(table)@.claimed.remove(p),
                    ..old(table)@
                },
                _ => old(table)@,
            }),
            final(shared)@ == old(shared)@.marked(old(self).slot, connected),
    {
        if !connected {
            match &self.claimed_path {
                Some(p) => table.release(p.as_str()),
                None => {},
            }
            self.claimed_path = None;
        }
        shared.set_slot_connected(self.slot, connected);
    }
}

// ---------------------------------------------------------------------------
// Laws
// ---------------------------------------------------------------------------

/// A slot is marked in a mask by the bit with its number.
pub proof fn law_marks_in_a_mask(mask: u8)
    ensures
        is_marked(mask, 0) == (mask % 2 == 1),
        is_marked(mask, 1) == (mask / 2 % 2 == 1),
        is_marked(mask, 2) == (mask / 4 % 2 == 1),
        is_marked(mask, 3) == (mask / 8 % 2 == 1),
{
    reveal_with_fuel(is_marked, 5);
}

/// A Pro Controller is told by vendor 0x057E and product 0x2009, and by how it
/// is attached.
pub proof fn law_pro_controllers(e: HidEntryModel, claimed: Seq<char>)
    ensures
        is_pro(e) == (e.vendor_id == 0x057E && e.product_id == 0x2009),
        connection_of(e) == (if e.usb {
            ConnectionType::Usb
        } else {
            ConnectionType::Bluetooth
        }),
        is_wanted(e, None) == is_pro(e),
        is_wanted(e, Some(claimed)) == (is_pro(e) && e.path == claimed),
{
}

/// The Pro Controllers are listed in the order of the devices, and no other
/// device is.
pub proof fn law_pro_devices_in_order(list: Seq<HidEntryModel>, e: HidEntryModel)
    ensures
        pro_devices(Seq::empty()).len() == 0,
        is_pro(e) ==> pro_devices(list.push(e)) == pro_devices(list).push(
            (e.path, connection_of(e)),
        ),
        !is_pro(e) ==> pro_devices(list.push(e)) == pro_devices(list),
{
    assert(list.push(e).drop_last() =~= list);
}

/// A new device gets the lowest slot that is free, and with it the path is
/// taken; the other slots stay as they are. A device whose path is taken gets
/// none, and neither does one where no slot is free.
pub proof fn law_device_gets_the_lowest_slot(
    m: SlotModel,
    d: (Seq<char>, ConnectionType),
    slot: int,
)
    requires
        m.wf(),
        0 <= slot <= 4,
        forall|j: int| 0 <= j < slot ==> m.running[j],
        slot < 4 ==> !m.running[slot],
    ensures
        ({
            let given = m.assignments(seq![d]);
            let after = m.assigned(seq![d]);
            let gets = slot < 4 && !m.claimed.contains(d.0);
            &&& gets ==> given.len() == 1 && given[0].0 == slot && given[0].1 == d.0
            &&& gets ==> after.running[slot] && after.paths[slot] == Some(d.0)
                && after.claimed.contains(d.0)
            &&& gets ==> forall|j: int|
                0 <= j < 4 && j != slot ==> after.running[j] == m.running[j] && after.paths[j]
                    == m.paths[j]
            &&& gets ==> forall|p: Seq<char>|
                p != d.0 ==> after.claimed.contains(p) == m.claimed.contains(p)
            &&& !gets ==> given.len() == 0 && after == m
        }),
{
    lemma_first_free_is(m.running, slot);
    let one = seq![d];
    assert(one.drop_first() =~= Seq::<(Seq<char>, ConnectionType)>::empty());
    reveal_with_fuel(SlotModel::assignments, 3);
    reveal_with_fuel(SlotModel::assigned, 3);
}

/// Devices are given slots one after another, in their order.
pub proof fn law_devices_in_turn(
    m: SlotModel,
    d: (Seq<char>, ConnectionType),
    rest: Seq<(Seq<char>, ConnectionType)>,
)
    requires
        m.wf(),
    ensures
        m.assignments(seq![d] + rest) == m.assignments(seq![d]) + m.assigned(
            seq![d],
        ).assignments(rest),
        m.assigned(seq![d] + rest) == m.assigned(seq![d]).assigned(rest),
{
    let one = seq![d];
    let all = one + rest;
    assert(all[0] == d);
    assert(all.drop_first() =~= rest);
    assert(one.drop_first() =~= Seq::<(Seq<char>, ConnectionType)>::empty());
    reveal_with_fuel(SlotModel::assignments, 2);
    reveal_with_fuel(SlotModel::assigned, 2);
    let given = m.assignments(one);
    let next = m.assigned(one);
    if m.claimed.contains(d.0) {
        assert(given + next.assignments(rest) =~= next.assignments(rest));
    } else if first_free(m.running) >= CONTROLLER_SLOTS {
        lemma_full_table_gives_nothing(m, rest);
        assert(given + next.assignments(rest) =~= Seq::<(u8, Seq<char>)>::empty());
    } else {
        let slot = first_free(m.running);
        assert(given =~= seq![(slot as u8, d.0)]);
    }
}

proof fn lemma_full_table_gives_nothing(m: SlotModel, devices: Seq<(Seq<char>, ConnectionType)>)
    requires
        first_free(m.running) >= CONTROLLER_SLOTS,
    ensures
        m.assignments(devices).len() == 0,
        m.assigned(devices) == m,
    decreases devices.len(),
{
    if devices.len() > 0 && m.claimed.contains(devices[0].0) {
        lemma_full_table_gives_nothing(m, devices.drop_first());
    }
}

/// A path stays taken while the loop that holds it runs on.
pub proof fn law_running_loops_keep_their_paths(m: SlotModel, ended: Seq<bool>, path: Seq<char>)
    requires
        m.wf(),
        ended.len() == CONTROLLER_SLOTS,
        m.claimed.contains(path),
        forall|i: int|
            0 <= i < CONTROLLER_SLOTS && ended[i] && m.running[i] ==> #[trigger] m.paths[i] != Some(
                path,
            ),
    ensures
        m.reaped(ended, CONTROLLER_SLOTS as nat).claimed.contains(path),
{
    reveal_with_fuel(SlotModel::reaped, 5);
    assert(m.paths[0] == m.paths[0] && m.paths[1] == m.paths[1] && m.paths[2] == m.paths[2]
        && m.paths[3] == m.paths[3]);
}

/// Marking a slot changes whether its controller is connected, and nothing
/// else; a slot that does not exist changes nothing.
pub proof fn law_marking_changes_one_slot(s: SharedModel, slot: u8, connected: bool, i: int)
    requires
        s.wf(),
        0 <= i < 4,
    ensures
        ({
            let after = s.marked(slot, connected);
            &&& after.selected_slot == s.selected_slot
            &&& i == slot ==> after.active[i] == connected && after.slots[i].connected == connected
            &&& i == slot ==> after.slots[i] == (ControllerModel { connected, ..s.slots[i] })
            &&& i != slot ==> after.active[i] == s.active[i] && after.slots[i] == s.slots[i]
            &&& slot >= 4 ==> after == s
        }),
{
}

/// The selected slot is the one with that number, and the last one where there
/// is no such slot.
pub proof fn law_selection(s: SharedModel)
    ensures
        s.selected_slot < 4 ==> s.selected() == s.selected_slot,
        s.selected_slot >= 4 ==> s.selected() == 3,
{
}

/// The errors for a device that is not there and for a slot that does not
/// exist.
pub proof fn law_error_texts(path: Seq<char>, slot: u8)
    ensures
        not_found_text(Some(path)) == "claimed path "@ + path + " not found"@,
        not_found_text(None)
            == "No Pro Controller (VID=0x057E, PID=0x2009) found in HID enumeration"@,
        invalid_slot_text(slot) == "Invalid slot "@ + text::decimal(slot as nat),
{
}

} // verus!
