//! Bringing a paired controller back over Bluetooth: which of the adapters and
//! devices are looked at, and when the search is over.

use vstd::prelude::*;

use crate::hidhide;
use crate::hidhide::Guid;
use crate::text;

verus! {

/// How many adapters are searched.
pub const MAX_RADIOS: usize = 8;

/// How many devices of an adapter are looked at.
pub const MAX_DEVICES: usize = 256;

/// The service of human interface devices.
pub fn hid_service_guid() -> (r: Guid)
    ensures
        r.data1 == 0x0000_1124,
        r.data2 == 0,
        r.data3 == 0x1000,
        r.data4@ == seq![0x80u8, 0, 0, 0x80, 0x5F, 0x9B, 0x34, 0xFB],
{
    let r = Guid {
        data1: 0x0000_1124,
        data2: 0,
        data3: 0x1000,
        data4: [0x80, 0, 0, 0x80, 0x5F, 0x9B, 0x34, 0xFB],
    };
    assert(r.data4@ =~= seq![0x80u8, 0, 0, 0x80, 0x5F, 0x9B, 0x34, 0xFB]);
    r
}

/// The text of a wide string that ends at the first zero.
pub fn wide_to_string(buf: &[u16]) -> (r: String)
    ensures
        r@ == text::utf16_text(hidhide::before_zero(buf@)),
{
    hidhide::from_wide(buf)
}

/// Whether a name, in small letters, is that of a Pro Controller.
pub open spec fn names_pro(lower: Seq<char>) -> bool {
    text::has_infix(lower, "pro controller"@)
}

/// Whether a name, in small letters, is that of a Pro Controller.
pub fn lower_names_pro(lower: &str) -> (r: bool)
    ensures
        r == names_pro(lower@),
{
    let chars = text::chars_of(lower);
    let name = text::chars_of("pro controller");
    text::contains(chars.as_slice(), name.as_slice())
}

/// Whether a name is that of a Pro Controller.
pub fn is_pro_controller_name(name: &str) -> (r: bool)
    ensures
        r == names_pro(text::lowercase(name@)),
        text::ascii_only(name@) ==> r == names_pro(text::ascii_lowered(name@)),
{
    let lower = text::to_lowercase(name);
    lower_names_pro(lower.as_str())
}

/// An address as text: its bytes from the last to the first, with colons
/// between them.
pub fn format_bt_address(bytes: &[u8; 6]) -> (r: String)
    ensures
        r@ == text::hex_joined(bytes@.reverse(), ':'),
{
    let turned: [u8; 6] = [bytes[5], bytes[4], bytes[3], bytes[2], bytes[1], bytes[0]];
    assert(turned@ =~= bytes@.reverse());
    text::hex_join(&turned, ':')
}

// ---------------------------------------------------------------------------
// The search
// ---------------------------------------------------------------------------

/// What is done next about the devices of an adapter.
#[derive(Clone, Copy, Debug, PartialEq, Eq, Structural)]
pub enum DeviceStep {
    /// Look at the next device.
    Next,
    /// Enable the service for this device.
    Enable,
    /// The controller is coming back: the search is over.
    Finish,
    /// Enough devices were looked at.
    GiveUp,
}

/// What is done next about the adapters.
#[derive(Clone, Copy, Debug, PartialEq, Eq, Structural)]
pub enum RadioStep {
    /// Search the next adapter.
    Next,
    /// The search is over.
    Stop,
}

/// How far a search has come.
#[derive(Clone, Copy, Debug, PartialEq, Eq, Structural)]
pub struct Search {
    /// Adapters searched, with the present one.
    pub radios: usize,
    /// Devices of the present adapter looked at.
    pub devices: usize,
    /// Whether a paired controller was seen.
    pub found: bool,
    /// Whether a controller is connected or coming back.
    pub connected: bool,
}

impl Search {
    /// Within the limits, and with nothing connected that was not found.
    pub open spec fn wf(self) -> bool {
        self.radios <= MAX_RADIOS && self.devices <= MAX_DEVICES && (self.connected ==> self.found)
    }
}

/// Whether there is a device after the present one to look at.
pub open spec fn device_after(s: Search) -> DeviceStep {
    if s.devices >= MAX_DEVICES {
        DeviceStep::GiveUp
    } else {
        DeviceStep::Next
    }
}

/// What is done about a device.
pub open spec fn device_step(s: Search, is_pro: bool, connected: bool) -> (DeviceStep, Search) {
    let seen = Search { devices: (s.devices + 1) as usize, ..s };
    if !is_pro {
        (device_after(seen), seen)
    } else if connected {
        (DeviceStep::Finish, Search { found: true, connected: true, ..seen })
    } else {
        (DeviceStep::Enable, Search { found: true, ..seen })
    }
}

/// What is done once the service was enabled, or was not.
pub open spec fn enabled_step(s: Search, ok: bool) -> (DeviceStep, Search) {
    if ok {
        (DeviceStep::Finish, Search { connected: true, ..s })
    } else {
        (device_after(s), s)
    }
}

impl Search {
    /// Nothing searched.
    pub fn new() -> (r: Self)
        ensures
            r == (Search { radios: 0, devices: 0, found: false, connected: false }),
            r.wf(),
    {
        Search { radios: 0, devices: 0, found: false, connected: false }
    }

    /// Starts on an adapter.
    pub fn begin_radio(&mut self)
        requires
            old(self).wf(),
            old(self).radios < MAX_RADIOS,
        ensures
            *final(self) == (Search {
                radios: (old(self).radios + 1) as usize,
                devices: 0,
                ..*old(self)
            }),
            final(self).wf(),
    {
        self.radios = self.radios + 1;
        self.devices = 0;
    }

    /// Decides about a device, by its name and whether it is connected.
    pub fn see_device(&mut self, name: &str, connected: bool) -> (r: DeviceStep)
        requires
            old(self).wf(),
            old(self).devices < MAX_DEVICES,
        ensures
            (r, *final(self)) == device_step(
                *old(self),
                names_pro(text::lowercase(name@)),
                connected,
            ),
            final(self).wf(),
    {
        let is_pro = is_pro_controller_name(name);
        self.see_named(is_pro, connected)
    }

    /// Decides about a device that is known to be a Pro Controller, or not.
    pub fn see_named(&mut self, is_pro: bool, connected: bool) -> (r: DeviceStep)
        requires
            old(self).wf(),
            old(self).devices < MAX_DEVICES,
        ensures
            (r, *final(self)) == device_step(*old(self), is_pro, connected),
            final(self).wf(),
    {
        self.devices = self.devices + 1;
        if !is_pro {
            return self.after_device();
        }
        self.found = true;
        if connected {
            self.connected = true;
            return DeviceStep::Finish;
        }
        DeviceStep::Enable
    }

    fn after_device(&self) -> (r: DeviceStep)
        ensures
            r == device_after(*self),
    {
        if self.devices >= MAX_DEVICES {
            return DeviceStep::GiveUp;
        }
        DeviceStep::Next
    }

    /// Decides once the service was enabled, or was not.
    pub fn see_enabled(&mut self, ok: bool) -> (r: DeviceStep)
        requires
            old(self).wf(),
            old(self).found,
        ensures
            (r, *final(self)) == enabled_step(*old(self), ok),
            final(self).wf(),
    {
        if ok {
            self.connected = true;
            return DeviceStep::Finish;
        }
        self.after_device()
    }

    /// Decides whether there is an adapter after the present one to search.
    pub fn end_radio(&self) -> (r: RadioStep)
        requires
            self.wf(),
        ensures
            r == (if self.connected || self.radios >= MAX_RADIOS {
                RadioStep::Stop
            } else {
                RadioStep::Next
            }),
            r == RadioStep::Next ==> self.radios < MAX_RADIOS,
    {
        if self.connected || self.radios >= MAX_RADIOS {
            return RadioStep::Stop;
        }
        RadioStep::Next
    }
}

// ---------------------------------------------------------------------------
// Laws
// ---------------------------------------------------------------------------

/// A search that says to look at another device can look at it: the limit is
/// not reached.
pub proof fn law_next_device_is_within_the_limit(s: Search, is_pro: bool, connected: bool, ok: bool)
    requires
        s.wf(),
        s.devices < MAX_DEVICES,
    ensures
        device_step(s, is_pro, connected).0 == DeviceStep::Next ==> device_step(
            s,
            is_pro,
            connected,
        ).1.devices < MAX_DEVICES,
        enabled_step(device_step(s, is_pro, connected).1, ok).0 == DeviceStep::Next
            ==> device_step(s, is_pro, connected).1.devices < MAX_DEVICES,
{
}

/// The search is over as soon as a controller is connected, and only then does
/// it end in success.
pub proof fn law_finish_means_connected(s: Search, is_pro: bool, connected: bool, ok: bool)
    requires
        s.wf(),
        !s.connected,
        s.devices < MAX_DEVICES,
    ensures
        (device_step(s, is_pro, connected).0 == DeviceStep::Finish) == device_step(
            s,
            is_pro,
            connected,
        ).1.connected,
        (enabled_step(s, ok).0 == DeviceStep::Finish) == enabled_step(s, ok).1.connected,
{
}

/// What a search finds out about a device when it looks at it.
pub struct SeenDevice {
    pub is_pro: bool,
    pub connected: bool,
    /// Whether its service can be enabled.
    pub enables: bool,
}

impl SeenDevice {
    /// A controller that is connected or can be brought back.
    pub open spec fn comes_back(self) -> bool {
        self.is_pro && (self.connected || self.enables)
    }
}

/// What is done about a device, with its service enabled where the search asks
/// for it.
pub open spec fn whole_step(s: Search, d: SeenDevice) -> (DeviceStep, Search) {
    let step = device_step(s, d.is_pro, d.connected);
    if step.0 == DeviceStep::Enable {
        enabled_step(step.1, d.enables)
    } else {
        step
    }
}

/// A search after the devices of an adapter.
pub open spec fn search_devices(s: Search, devices: Seq<SeenDevice>) -> Search
    decreases devices.len(),
{
    if devices.len() == 0 {
        s
    } else {
        let step = whole_step(s, devices[0]);
        if step.0 == DeviceStep::Next {
            search_devices(step.1, devices.skip(1))
        } else {
            step.1
        }
    }
}

/// Whether one of the first `n` devices is a controller that comes back.
pub open spec fn some_comes_back(devices: Seq<SeenDevice>, n: int) -> bool {
    exists|i: int| 0 <= i < n && i < devices.len() && (#[trigger] devices[i]).comes_back()
}

/// A search of an adapter brings a controller back if and only if there is one
/// to bring back among the devices within the limit, and it has seen a
/// controller if and only if there is one among these.
pub proof fn law_search_finds_what_is_there(s: Search, devices: Seq<SeenDevice>)
    requires
        s.wf(),
        !s.connected,
        s.devices < MAX_DEVICES,
    ensures
        ({
            let r = search_devices(s, devices);
            let n = MAX_DEVICES - s.devices;
            &&& r.wf()
            &&& r.radios == s.radios
            &&& r.connected == some_comes_back(devices, n)
            &&& r.found == (s.found || exists|i: int|
                0 <= i < n && i < devices.len() && (#[trigger] devices[i]).is_pro)
        }),
    decreases devices.len(),
{
    let n = MAX_DEVICES - s.devices;
    if devices.len() > 0 {
        let d = devices[0];
        let rest = devices.skip(1);
        let step = whole_step(s, d);
        if d.comes_back() {
            assert(devices[0].comes_back() && devices[0].is_pro);
        } else {
            assert(!step.1.connected);
            if d.is_pro {
                assert(devices[0].is_pro);
            }
            if step.0 == DeviceStep::Next {
                law_search_finds_what_is_there(step.1, rest);
                assert forall|i: int| 0 < i < n && i < devices.len() implies #[trigger] devices[i]
                    == rest[i - 1] by {}
                assert forall|i: int| 0 <= i < n - 1 && i < rest.len() implies #[trigger] rest[i]
                    == devices[i + 1] by {}
            } else {
                assert(n == 1);
            }
        }
    }
}

/// A search after some adapters.
pub open spec fn search_radios(s: Search, radios: Seq<Seq<SeenDevice>>) -> Search
    decreases radios.len(),
{
    if radios.len() == 0 || s.connected || s.radios >= MAX_RADIOS {
        s
    } else {
        search_radios(
            search_devices(
                Search { radios: (s.radios + 1) as usize, devices: 0, ..s },
                radios[0],
            ),
            radios.skip(1),
        )
    }
}

/// A whole search brings a controller back if and only if one of the adapters
/// within the limit has one to bring back.
pub proof fn law_search_covers_all_radios(s: Search, radios: Seq<Seq<SeenDevice>>)
    requires
        s.wf(),
        !s.connected,
    ensures
        search_radios(s, radios).connected == exists|r: int|
            0 <= r < MAX_RADIOS - s.radios && r < radios.len() && some_comes_back(
                #[trigger] radios[r],
                MAX_DEVICES as int,
            ),
    decreases radios.len(),
{
    if radios.len() > 0 && s.radios < MAX_RADIOS {
        let begun = Search { radios: (s.radios + 1) as usize, devices: 0, ..s };
        let next = search_devices(begun, radios[0]);
        let rest = radios.skip(1);
        let n = MAX_RADIOS - s.radios;
        law_search_finds_what_is_there(begun, radios[0]);
        if next.connected {
            assert(search_radios(next, rest) == next);
            assert(some_comes_back(radios[0], MAX_DEVICES as int));
        } else {
            law_search_covers_all_radios(next, rest);
            assert forall|r: int| 0 < r < n && r < radios.len() implies #[trigger] radios[r]
                == rest[r - 1] by {}
            assert forall|r: int| 0 <= r < n - 1 && r < rest.len() implies #[trigger] rest[r]
                == radios[r + 1] by {}
        }
    }
}

/// A device that is no controller changes nothing but the count.
pub proof fn law_other_devices_are_passed_over(s: Search, connected: bool)
    requires
        s.wf(),
        s.devices < MAX_DEVICES,
    ensures
        device_step(s, false, connected).1.found == s.found,
        device_step(s, false, connected).1.connected == s.connected,
        device_step(s, false, connected).0 != DeviceStep::Enable,
{
}

/// What follows a device: one that is no controller is passed over, a
/// connected controller ends the search, and any other is to be enabled; one
/// that was enabled ends the search, one that was not is passed over. Of each
/// adapter no more than 256 devices are looked at, and no more than eight
/// adapters.
pub proof fn law_what_follows_a_device(s: Search, connected: bool, ok: bool)
    requires
        s.wf(),
        s.devices < 256,
    ensures
        ({
            let (other, after_other) = device_step(s, false, connected);
            let (pro, after_pro) = device_step(s, true, connected);
            let (tried, after_tried) = enabled_step(s, ok);
            &&& after_other.devices == s.devices + 1 && after_pro.devices == s.devices + 1
            &&& other == (if s.devices + 1 < 256 { DeviceStep::Next } else { DeviceStep::GiveUp })
            &&& pro == (if connected { DeviceStep::Finish } else { DeviceStep::Enable })
            &&& after_pro.found && after_pro.connected == (s.connected || connected)
            &&& tried == (if ok {
                DeviceStep::Finish
            } else {
                DeviceStep::Next
            })
            &&& after_tried.connected == (s.connected || ok)
            &&& MAX_RADIOS == 8
        }),
{
}

/// A name is that of a Pro Controller if it holds these words.
pub proof fn law_names_of_controllers(before: Seq<char>, after: Seq<char>)
    ensures
        names_pro(before + "pro controller"@ + after),
        names_pro(before) == text::has_infix(before, "pro controller"@),
{
    text::law_parts_of_a_text(before, "pro controller"@, after);
}

} // verus!
