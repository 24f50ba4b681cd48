//! What is sent to a controller and when: the steps after it connects and
//! before it is let go, and the periodic writes in between.

use vstd::prelude::*;

use crate::hid_parser::build_set_report_mode_subcmd;
use crate::state::ConnectionType;
use crate::subcmd;
use crate::subcmd::{
    build_request, Request, SPI_ADDR_BODY_COLOR, SPI_ADDR_BUTTON_COLOR, SPI_ADDR_COLOR_FLAG,
    SPI_ADDR_HORIZONTAL_OFFSETS, SPI_ADDR_IMU_FACTORY, SPI_ADDR_IMU_USER,
    SPI_ADDR_LEFT_GRIP_COLOR, SPI_ADDR_LEFT_STICK_FACTORY, SPI_ADDR_LEFT_STICK_USER,
    SPI_ADDR_RIGHT_GRIP_COLOR, SPI_ADDR_RIGHT_STICK_FACTORY, SPI_ADDR_RIGHT_STICK_USER,
    SPI_ADDR_SERIAL, USB_CMD_BAUDRATE_3M, USB_CMD_EN_TIMEOUT, USB_CMD_HANDSHAKE,
    USB_CMD_NO_TIMEOUT,
};

verus! {

/// Something that is sent to the thread that owns the device.
#[derive(Debug)]
pub enum DeviceCommand {
    /// Write a report.
    Write(Vec<u8>),
}

/// One step of a sequence.
#[derive(Clone, Copy, Debug, PartialEq, Eq, Structural)]
pub enum Step {
    /// Send a command to the USB bridge.
    Usb(u8),
    /// Make the controller send standard reports.
    SetReportMode,
    /// Send a subcommand.
    Send(Request),
    /// Wait, in milliseconds.
    Wait(u64),
}

/// The steps that ask a controller for all that is to be known of it: device
/// information, motion sensor and vibration on, then the calibration, serial
/// number and colors from flash memory.
pub open spec fn init_steps() -> Seq<Step> {
    seq![
        Step::Send(Request::GetDeviceInfo),
        Step::Wait(100),
        Step::Send(Request::EnableImu { on: true }),
        Step::Wait(100),
        Step::Send(Request::EnableVibration { on: true }),
        Step::Wait(300),
        Step::Send(Request::SpiFlashRead { addr: SPI_ADDR_LEFT_STICK_FACTORY, len: 9 }),
        Step::Wait(150),
        Step::Send(Request::SpiFlashRead { addr: SPI_ADDR_RIGHT_STICK_FACTORY, len: 9 }),
        Step::Wait(150),
        Step::Send(Request::SpiFlashRead { addr: SPI_ADDR_IMU_FACTORY, len: 24 }),
        Step::Wait(150),
        Step::Send(Request::SpiFlashRead { addr: SPI_ADDR_LEFT_STICK_USER, len: 11 }),
        Step::Wait(150),
        Step::Send(Request::SpiFlashRead { addr: SPI_ADDR_RIGHT_STICK_USER, len: 11 }),
        Step::Wait(150),
        Step::Send(Request::SpiFlashRead { addr: SPI_ADDR_IMU_USER, len: 26 }),
        Step::Wait(150),
        Step::Send(Request::SpiFlashRead { addr: SPI_ADDR_SERIAL, len: 16 }),
        Step::Wait(150),
        Step::Send(Request::SpiFlashRead { addr: SPI_ADDR_BODY_COLOR, len: 3 }),
        Step::Wait(150),
        Step::Send(Request::SpiFlashRead { addr: SPI_ADDR_LEFT_GRIP_COLOR, len: 3 }),
        Step::Wait(150),
        Step::Send(Request::SpiFlashRead { addr: SPI_ADDR_RIGHT_GRIP_COLOR, len: 3 }),
        Step::Wait(150),
        Step::Send(Request::SpiFlashRead { addr: SPI_ADDR_COLOR_FLAG, len: 1 }),
        Step::Wait(150),
        Step::Send(Request::SpiFlashRead { addr: SPI_ADDR_BUTTON_COLOR, len: 3 }),
        Step::Wait(150),
        Step::Send(Request::SpiFlashRead { addr: SPI_ADDR_HORIZONTAL_OFFSETS, len: 6 }),
    ]
}

/// The steps that ask a controller for all that is to be known of it.
pub fn send_init_sequence() -> (r: Vec<Step>)
    ensures
        r@ == init_steps(),
{
    let steps: Vec<Step> = vec![
        Step::Send(Request::GetDeviceInfo),
        Step::Wait(100),
        Step::Send(Request::EnableImu { on: true }),
        Step::Wait(100),
        Step::Send(Request::EnableVibration { on: true }),
        Step::Wait(300),
        Step::Send(Request::SpiFlashRead { addr: SPI_ADDR_LEFT_STICK_FACTORY, len: 9 }),
        Step::Wait(150),
        Step::Send(Request::SpiFlashRead { addr: SPI_ADDR_RIGHT_STICK_FACTORY, len: 9 }),
        Step::Wait(150),
        Step::Send(Request::SpiFlashRead { addr: SPI_ADDR_IMU_FACTORY, len: 24 }),
        Step::Wait(150),
        Step::Send(Request::SpiFlashRead { addr: SPI_ADDR_LEFT_STICK_USER, len: 11 }),
        Step::Wait(150),
        Step::Send(Request::SpiFlashRead { addr: SPI_ADDR_RIGHT_STICK_USER, len: 11 }),
        Step::Wait(150),
        Step::Send(Request::SpiFlashRead { addr: SPI_ADDR_IMU_USER, len: 26 }),
        Step::Wait(150),
        Step::Send(Request::SpiFlashRead { addr: SPI_ADDR_SERIAL, len: 16 }),
        Step::Wait(150),
        Step::Send(Request::SpiFlashRead { addr: SPI_ADDR_BODY_COLOR, len: 3 }),
        Step::Wait(150),
        Step::Send(Request::SpiFlashRead { addr: SPI_ADDR_LEFT_GRIP_COLOR, len: 3 }),
        Step::Wait(150),
        Step::Send(Request::SpiFlashRead { addr: SPI_ADDR_RIGHT_GRIP_COLOR, len: 3 }),
        Step::Wait(150),
        Step::Send(Request::SpiFlashRead { addr: SPI_ADDR_COLOR_FLAG, len: 1 }),
        Step::Wait(150),
        Step::Send(Request::SpiFlashRead { addr: SPI_ADDR_BUTTON_COLOR, len: 3 }),
        Step::Wait(150),
        Step::Send(Request::SpiFlashRead { addr: SPI_ADDR_HORIZONTAL_OFFSETS, len: 6 }),
    ];
    assert(steps@ =~= init_steps());
    steps
}

/// The steps that open the USB bridge and keep it from falling back to
/// Bluetooth.
pub open spec fn usb_steps() -> Seq<Step> {
    seq![
        Step::Usb(USB_CMD_HANDSHAKE),
        Step::Wait(100),
        Step::Usb(USB_CMD_BAUDRATE_3M),
        Step::Wait(100),
        Step::Usb(USB_CMD_NO_TIMEOUT),
        Step::Wait(100),
    ]
}

/// The steps after a controller connects.
pub open spec fn connect_steps(conn: ConnectionType) -> Seq<Step> {
    (if conn == ConnectionType::Usb {
        usb_steps()
    } else {
        Seq::empty()
    }) + seq![Step::SetReportMode] + init_steps()
}

/// The steps after a controller connects: over USB the bridge is opened first.
pub fn connect_sequence(conn: ConnectionType) -> (r: Vec<Step>)
    ensures
        r@ == connect_steps(conn),
{
    let mut steps: Vec<Step> = Vec::new();
    if conn == ConnectionType::Usb {
        steps.push(Step::Usb(USB_CMD_HANDSHAKE));
        steps.push(Step::Wait(100));
        steps.push(Step::Usb(USB_CMD_BAUDRATE_3M));
        steps.push(Step::Wait(100));
        steps.push(Step::Usb(USB_CMD_NO_TIMEOUT));
        steps.push(Step::Wait(100));
        assert(steps@ =~= usb_steps());
    }
    steps.push(Step::SetReportMode);
    let mut init: Vec<Step> = send_init_sequence();
    steps.append(&mut init);
    assert(steps@ =~= connect_steps(conn));
    steps
}

/// The steps before a controller is let go: over USB the bridge may fall back
/// to Bluetooth again.
pub fn disconnect_sequence(conn: ConnectionType) -> (r: Vec<Step>)
    ensures
        r@ == (if conn == ConnectionType::Usb {
            seq![Step::Usb(USB_CMD_EN_TIMEOUT), Step::Wait(50)]
        } else {
            Seq::empty()
        }),
{
    let mut steps: Vec<Step> = Vec::new();
    if conn == ConnectionType::Usb {
        steps.push(Step::Usb(USB_CMD_EN_TIMEOUT));
        steps.push(Step::Wait(50));
    }
    assert(steps@ =~= (if conn == ConnectionType::Usb {
        seq![Step::Usb(USB_CMD_EN_TIMEOUT), Step::Wait(50)]
    } else {
        Seq::empty()
    }));
    steps
}

/// The report that a step writes.
pub open spec fn step_report(step: Step, counter: u8) -> Option<Seq<u8>> {
    match step {
        Step::Usb(cmd) => Some(seq![0x80u8, cmd]),
        Step::SetReportMode => Some(seq![0x01u8, 0x01, 0, 0, 0, 0, 0, 0, 0, 0, 0x03, 0x30]),
        Step::Send(q) => Some(subcmd::request_report(counter, q)),
        Step::Wait(_) => None,
    }
}

/// The report that a step writes, with the given packet counter; `None` for a
/// wait.
pub fn step_command(step: Step, counter: u8) -> (r: Option<DeviceCommand>)
    ensures
        match r {
            Some(DeviceCommand::Write(bytes)) => step_report(step, counter) == Some(bytes@),
            None => step_report(step, counter) is None,
        },
{
    match step {
        Step::Usb(cmd) => {
            let bytes: Vec<u8> = vec![0x80, cmd];
            assert(bytes@ =~= seq![0x80u8, cmd]);
            Some(DeviceCommand::Write(bytes))
        },
        Step::SetReportMode => Some(DeviceCommand::Write(build_set_report_mode_subcmd())),
        Step::Send(q) => Some(DeviceCommand::Write(build_request(counter, q))),
        Step::Wait(_) => None,
    }
}

/// The bytes that the data at a flash address needs to be of use.
pub open spec fn bytes_needed(addr: u32) -> int {
    if addr == SPI_ADDR_LEFT_STICK_FACTORY || addr == SPI_ADDR_RIGHT_STICK_FACTORY {
        9
    } else if addr == SPI_ADDR_IMU_FACTORY {
        24
    } else if addr == SPI_ADDR_LEFT_STICK_USER || addr == SPI_ADDR_RIGHT_STICK_USER {
        11
    } else if addr == SPI_ADDR_IMU_USER {
        26
    } else if addr == SPI_ADDR_SERIAL || addr == SPI_ADDR_COLOR_FLAG {
        1
    } else if addr == SPI_ADDR_HORIZONTAL_OFFSETS {
        6
    } else {
        3
    }
}

/// Every flash read of the sequence asks for as many bytes as its address
/// needs.
pub proof fn law_init_reads_enough(i: int)
    requires
        0 <= i < init_steps().len(),
    ensures
        init_steps()[i] matches Step::Send(Request::SpiFlashRead { addr, len })
            ==> len >= bytes_needed(addr),
{
}

/// No two writes of the sequence stand next to each other: a wait lies between
/// any two.
pub proof fn law_init_waits_between_writes(i: int)
    requires
        0 <= i < init_steps().len() - 1,
    ensures
        init_steps()[i] is Wait <==> init_steps()[i + 1] is Send,
{
}

/// Reading the three address bytes that a reply echoes gives the address that
/// was asked for, for every address of 24 bits.
pub proof fn law_echoed_address_is_the_one_asked_for(counter: u8, addr: u32, len: u8)
    requires
        addr < 0x100_0000,
    ensures
        crate::device_loop::echoed_address(
            subcmd::request_report(counter, Request::SpiFlashRead { addr, len }).skip(11),
        ) == addr,
{
    let report = subcmd::request_report(counter, Request::SpiFlashRead { addr, len });
    assert(report.skip(11)[0] == (addr % 256) as u8);
    assert(report.skip(11)[1] == (addr / 256 % 256) as u8);
    assert(report.skip(11)[2] == (addr / 65536 % 256) as u8);
}

// ---------------------------------------------------------------------------
// Periodic writes
// ---------------------------------------------------------------------------

/// Milliseconds between two rumble reports.
pub const RUMBLE_REFRESH_INTERVAL_MS: u64 = 50;

/// Milliseconds between two reports that keep the controller awake.
pub const KEEPALIVE_INTERVAL_MS: u64 = 1000;

/// Milliseconds between two questions for the battery.
pub const STATE_POLL_INTERVAL_MS: u64 = 5000;

/// Milliseconds between two looks at the foreground window.
pub const PROFILE_CHECK_INTERVAL_MS: u64 = 1000;

/// When each periodic action was last taken, in milliseconds.
#[derive(Clone, Copy, Debug, PartialEq, Eq, Structural)]
pub struct Timers {
    pub state_poll: u64,
    pub keepalive: u64,
    pub rumble_refresh: u64,
    pub profile_check: u64,
}

/// What is due at one time.
#[derive(Clone, Copy, Debug, PartialEq, Eq, Structural)]
pub struct TickActions {
    pub refresh_rumble: bool,
    pub keepalive: bool,
    pub poll_state: bool,
    pub check_profile: bool,
}

/// At least `interval` milliseconds have passed.
pub open spec fn has_passed(last: u64, now: u64, interval: u64) -> bool {
    now - last >= interval
}

/// Whether at least `interval` milliseconds have passed.
pub fn passed(last: u64, now: u64, interval: u64) -> (r: bool)
    requires
        interval > 0,
    ensures
        r == has_passed(last, now, interval),
{
    now > last && now - last >= interval
}

impl Timers {
    /// Everything counts as just done.
    pub fn new(now: u64) -> (r: Timers)
        ensures
            r == (Timers {
                state_poll: now,
                keepalive: now,
                rumble_refresh: now,
                profile_check: now,
            }),
    {
        Timers { state_poll: now, keepalive: now, rumble_refresh: now, profile_check: now }
    }

    /// What is due at a time. The rumble report is sent again only where rumble
    /// is wanted and vibration is on; a controller on USB is not kept awake.
    pub open spec fn due_at(
        self,
        now: u64,
        conn: ConnectionType,
        rumble_on: bool,
        vibration_on: bool,
    ) -> TickActions {
        TickActions {
            refresh_rumble: has_passed(self.rumble_refresh, now, RUMBLE_REFRESH_INTERVAL_MS)
                && rumble_on && vibration_on,
            keepalive: conn != ConnectionType::Usb && has_passed(
                self.keepalive,
                now,
                KEEPALIVE_INTERVAL_MS,
            ),
            poll_state: has_passed(self.state_poll, now, STATE_POLL_INTERVAL_MS),
            check_profile: has_passed(self.profile_check, now, PROFILE_CHECK_INTERVAL_MS),
        }
    }

    /// The timers after what was due at a time has been taken up.
    pub open spec fn after(self, now: u64, conn: ConnectionType) -> Timers {
        Timers {
            rumble_refresh: if has_passed(self.rumble_refresh, now, RUMBLE_REFRESH_INTERVAL_MS) {
                now
            } else {
                self.rumble_refresh
            },
            keepalive: if conn != ConnectionType::Usb && has_passed(
                self.keepalive,
                now,
                KEEPALIVE_INTERVAL_MS,
            ) {
                now
            } else {
                self.keepalive
            },
            state_poll: if has_passed(self.state_poll, now, STATE_POLL_INTERVAL_MS) {
                now
            } else {
                self.state_poll
            },
            profile_check: if has_passed(self.profile_check, now, PROFILE_CHECK_INTERVAL_MS) {
                now
            } else {
                self.profile_check
            },
        }
    }

    /// Takes up what is due.
    pub fn tick(
        &mut self,
        now: u64,
        conn: ConnectionType,
        rumble_on: bool,
        vibration_on: bool,
    ) -> (r: TickActions)
        ensures
            r == old(self).due_at(now, conn, rumble_on, vibration_on),
            *final(self) == old(self).after(now, conn),
    {
        let refresh: bool = passed(self.rumble_refresh, now, RUMBLE_REFRESH_INTERVAL_MS);
        if refresh {
            self.rumble_refresh = now;
        }
        let keepalive: bool = conn != ConnectionType::Usb && passed(
            self.keepalive,
            now,
            KEEPALIVE_INTERVAL_MS,
        );
        if keepalive {
            self.keepalive = now;
        }
        let poll_state: bool = passed(self.state_poll, now, STATE_POLL_INTERVAL_MS);
        if poll_state {
            self.state_poll = now;
        }
        let check_profile: bool = passed(self.profile_check, now, PROFILE_CHECK_INTERVAL_MS);
        if check_profile {
            self.profile_check = now;
        }
        TickActions {
            refresh_rumble: refresh && rumble_on && vibration_on,
            keepalive,
            poll_state,
            check_profile,
        }
    }
}

/// What has just been taken up is not due again before its interval is over.
pub proof fn law_nothing_is_due_twice(
    t: Timers,
    now: u64,
    later: u64,
    conn: ConnectionType,
    rumble_on: bool,
    vibration_on: bool,
)
    requires
        now <= later,
    ensures
        ({
            let first = t.due_at(now, conn, rumble_on, vibration_on);
            let second = t.after(now, conn).due_at(later, conn, rumble_on, vibration_on);
            &&& first.refresh_rumble && second.refresh_rumble ==> later - now
                >= RUMBLE_REFRESH_INTERVAL_MS
            &&& first.keepalive && second.keepalive ==> later - now >= KEEPALIVE_INTERVAL_MS
            &&& first.poll_state && second.poll_state ==> later - now >= STATE_POLL_INTERVAL_MS
            &&& first.check_profile && second.check_profile ==> later - now
                >= PROFILE_CHECK_INTERVAL_MS
        }),
{
}

/// A controller on USB is never sent a report to keep it awake.
pub proof fn law_usb_needs_no_keepalive(t: Timers, now: u64, rumble_on: bool, vibration_on: bool)
    ensures
        !t.due_at(now, ConnectionType::Usb, rumble_on, vibration_on).keepalive,
{
}

/// A controller is first asked for its device information, then its motion
/// sensor and its vibration are switched on, and after a longer wait its flash
/// memory is read: the calibration of both sticks and of the motion sensor from
/// the factory and then from the user, the serial number, the colors and the
/// horizontal offsets.
pub proof fn law_init_sequence()
    ensures
        ({
            let s = init_steps();
            &&& s.len() == 31
            &&& s[0] == Step::Send(Request::GetDeviceInfo)
            &&& s[1] == Step::Wait(100)
            &&& s[2] == Step::Send(Request::EnableImu { on: true })
            &&& s[3] == Step::Wait(100)
            &&& s[4] == Step::Send(Request::EnableVibration { on: true })
            &&& s[5] == Step::Wait(300)
            &&& s[6] == Step::Send(Request::SpiFlashRead { addr: 0x603D, len: 9 })
            &&& s[8] == Step::Send(Request::SpiFlashRead { addr: 0x6046, len: 9 })
            &&& s[10] == Step::Send(Request::SpiFlashRead { addr: 0x6020, len: 24 })
            &&& s[12] == Step::Send(Request::SpiFlashRead { addr: 0x8010, len: 11 })
            &&& s[14] == Step::Send(Request::SpiFlashRead { addr: 0x801B, len: 11 })
            &&& s[16] == Step::Send(Request::SpiFlashRead { addr: 0x8026, len: 26 })
            &&& s[18] == Step::Send(Request::SpiFlashRead { addr: 0x6000, len: 16 })
            &&& s[20] == Step::Send(Request::SpiFlashRead { addr: 0x6050, len: 3 })
            &&& s[22] == Step::Send(Request::SpiFlashRead { addr: 0x6056, len: 3 })
            &&& s[24] == Step::Send(Request::SpiFlashRead { addr: 0x6059, len: 3 })
            &&& s[26] == Step::Send(Request::SpiFlashRead { addr: 0x601B, len: 1 })
            &&& s[28] == Step::Send(Request::SpiFlashRead { addr: 0x6053, len: 3 })
            &&& s[30] == Step::Send(Request::SpiFlashRead { addr: 0x6080, len: 6 })
            &&& forall|i: int| 7 <= i < 31 && i % 2 == 1 ==> #[trigger] s[i] == Step::Wait(150)
        }),
{
    let s = init_steps();
    assert forall|i: int| 7 <= i < 31 && i % 2 == 1 implies #[trigger] s[i] == Step::Wait(150) by {
        assert(i == 7 || i == 9 || i == 11 || i == 13 || i == 15 || i == 17 || i == 19 || i == 21
            || i == 23 || i == 25 || i == 27 || i == 29);
    }
}

/// Over USB the bridge is greeted, set to its high rate and kept from falling
/// back, with a wait after each; then, over USB or not, standard reports are
/// switched on and the controller is asked for all that is to be known.
pub proof fn law_connect_sequence(conn: ConnectionType)
    ensures
        ({
            let s = connect_steps(conn);
            let n = if conn == ConnectionType::Usb { 6int } else { 0 };
            &&& s.len() == n + 1 + init_steps().len()
            &&& s[n] == Step::SetReportMode
            &&& forall|i: int| 0 <= i < init_steps().len() ==> s[n + 1 + i] == #[trigger] init_steps()[i]
            &&& conn == ConnectionType::Usb ==> s[0] == Step::Usb(2) && s[2] == Step::Usb(3) && s[4]
                == Step::Usb(4) && s[1] == Step::Wait(100) && s[3] == Step::Wait(100) && s[5]
                == Step::Wait(100)
        }),
{
}

/// What a step writes: a USB command behind the byte 0x80, a subcommand in its
/// output report; a wait writes nothing.
pub proof fn law_what_steps_write(counter: u8, cmd: u8, q: Request, ms: u64)
    ensures
        step_report(Step::Usb(cmd), counter) == Some(seq![0x80u8, cmd]),
        step_report(Step::SetReportMode, counter) == Some(
            subcmd::request_report(1, Request::SetReportMode { mode: 0x30 }),
        ),
        step_report(Step::Send(q), counter) == Some(subcmd::request_report(counter, q)),
        step_report(Step::Wait(ms), counter) is None,
{
    assert(subcmd::request_report(1, Request::SetReportMode { mode: 0x30 }) =~= seq![
        0x01u8,
        0x01,
        0,
        0,
        0,
        0,
        0,
        0,
        0,
        0,
        0x03,
        0x30,
    ]);
}

/// The rumble is sent again after 50 milliseconds, where it is wanted and on; a
/// controller that is not on USB is kept awake every second; the battery is
/// asked for every five seconds, and the foreground program looked at every
/// second. What was due starts its interval anew, and nothing else does.
pub proof fn law_intervals(
    t: Timers,
    now: u64,
    conn: ConnectionType,
    rumble_on: bool,
    vibration_on: bool,
)
    ensures
        ({
            let due = t.due_at(now, conn, rumble_on, vibration_on);
            let after = t.after(now, conn);
            &&& due.refresh_rumble == (now >= t.rumble_refresh + 50 && rumble_on && vibration_on)
            &&& due.keepalive == (now >= t.keepalive + 1000 && conn == ConnectionType::Bluetooth)
            &&& due.poll_state == (now >= t.state_poll + 5000)
            &&& due.check_profile == (now >= t.profile_check + 1000)
            &&& after.rumble_refresh == (if now >= t.rumble_refresh + 50 {
                now
            } else {
                t.rumble_refresh
            })
            &&& after.keepalive == (if due.keepalive { now } else { t.keepalive })
            &&& after.state_poll == (if due.poll_state { now } else { t.state_poll })
            &&& after.profile_check == (if due.check_profile { now } else { t.profile_check })
        }),
{
}

} // verus!
