//! A motion server: the packets it answers with, the clients it answers, and
//! when it stops answering them.

use vstd::prelude::*;

use crate::clock;
use crate::config::DsuConfig;
use crate::numeric;
use crate::numeric::Real32;
use crate::state::{ButtonState, ConnectionType, ControllerModel, ControllerState};
use crate::text;
use crate::text::same;

verus! {

/// The version of the protocol.
pub const PROTOCOL_VERSION: u16 = 1001;

/// What a packet of the server starts with.
pub const SERVER_MAGIC: [u8; 4] = [0x44, 0x53, 0x55, 0x53];

/// What a packet of a client starts with.
pub const CLIENT_MAGIC: [u8; 4] = [0x44, 0x53, 0x55, 0x43];

/// A request for the version, or the answer to it.
pub const MSG_VERSION: u32 = 0x100000;

/// A request for what is in the slots, or an answer to it.
pub const MSG_PORT_INFO: u32 = 0x100001;

/// A subscription to the state of controllers, or such a state.
pub const MSG_PAD_DATA: u32 = 0x100002;

/// The identifier that the server gives itself.
pub const DEFAULT_SERVER_ID: u32 = 0x4F584944;

/// How long a client is served after it was last heard of.
pub const CLIENT_TIMEOUT_MS: u64 = 5000;

/// The number of slots.
pub const SLOT_COUNT: u8 = 4;

/// The length of the header of a packet.
pub const HEADER_LEN: usize = 20;

// ---------------------------------------------------------------------------
// Checksums
// ---------------------------------------------------------------------------

/// The polynomial of the CRC-32, its highest power in the lowest bit.
pub const CRC_POLYNOMIAL: u32 = 0xEDB8_8320;

/// A remainder after one more bit: the lowest bit is shifted out, and where it
/// was set, the polynomial is taken off.
pub open spec fn crc_bit(c: u32) -> u32 {
    if c & 1 == 1 {
        (c >> 1) ^ CRC_POLYNOMIAL
    } else {
        c >> 1
    }
}

/// A remainder after some more bits.
pub open spec fn crc_bits(c: u32, n: nat) -> u32
    decreases n,
{
    if n == 0 {
        c
    } else {
        crc_bit(crc_bits(c, (n - 1) as nat))
    }
}

/// A remainder after one more byte, the lowest bit of which comes first.
pub open spec fn crc_byte(c: u32, b: u8) -> u32 {
    crc_bits(c ^ (b as u32), 8)
}

/// The remainder after some bytes. It starts with all bits set.
pub open spec fn crc_remainder(data: Seq<u8>) -> u32
    decreases data.len(),
{
    if data.len() == 0 {
        0xFFFF_FFFF
    } else {
        crc_byte(crc_remainder(data.drop_last()), data.last())
    }
}

/// The CRC-32 of some bytes, as IEEE 802.3 has it: all bits of the remainder
/// turned round.
pub open spec fn crc32(data: Seq<u8>) -> u32 {
    crc_remainder(data) ^ 0xFFFF_FFFF
}

/// `crc32fast::hash`: the CRC-32 of some bytes, with the polynomial, the order
/// of the bits and the inversions of IEEE 802.3.
#[verifier::external_body]
fn hash_crc32(data: &[u8]) -> (r: u32)
    ensures
        r == crc32(data@),
{
    crc32fast::hash(data)
}

/// A packet with its checksum field blank.
pub open spec fn blanked(p: Seq<u8>) -> Seq<u8> {
    p.update(8, 0u8).update(9, 0u8).update(10, 0u8).update(11, 0u8)
}

/// A packet with a given checksum.
pub open spec fn stamped(p: Seq<u8>, crc: u32) -> Seq<u8> {
    let c = numeric::le32(crc);
    p.update(8, c[0]).update(9, c[1]).update(10, c[2]).update(11, c[3])
}

/// A packet with its checksum filled in.
pub open spec fn sealed(p: Seq<u8>) -> Seq<u8> {
    stamped(p, crc32(blanked(p)))
}

/// Whether a packet carries its own checksum.
pub open spec fn crc_holds(p: Seq<u8>) -> bool {
    p.len() >= 12 && crc32(blanked(p)) == numeric::from_le32(p[8], p[9], p[10], p[11])
}

/// A copy of some bytes.
fn copy_bytes(data: &[u8]) -> (r: Vec<u8>)
    ensures
        r@ == data@,
{
    let mut out: Vec<u8> = Vec::new();
    append_bytes(&mut out, data);
    assert(out@ =~= data@);
    out
}

/// Appends some bytes.
fn append_bytes(out: &mut Vec<u8>, data: &[u8])
    ensures
        final(out)@ == old(out)@ + data@,
{
    let ghost was = out@;
    let mut i: usize = 0;
    while i < data.len()
        invariant
            i <= data@.len(),
            out@ =~= was + data@.take(i as int),
        decreases data@.len() - i,
    {
        out.push(data[i]);
        i = i + 1;
    }
    assert(data@.take(data@.len() as int) =~= data@);
}

/// Whether the checksum in a packet is `crc`.
pub fn carries(data: &[u8], crc: u32) -> (r: bool)
    requires
        data@.len() >= 12,
    ensures
        r == (crc == numeric::from_le32(data[8], data[9], data[10], data[11])),
{
    numeric::u32_le(data[8], data[9], data[10], data[11]) == crc
}

/// Whether a packet carries its own checksum.
pub fn verify_crc(data: &[u8]) -> (r: bool)
    ensures
        r == crc_holds(data@),
{
    if data.len() < 12 {
        return false;
    }
    let mut copy = copy_bytes(data);
    blank_crc(&mut copy);
    let crc = hash_crc32(copy.as_slice());
    carries(data, crc)
}

fn blank_crc(p: &mut Vec<u8>)
    requires
        old(p)@.len() >= 12,
    ensures
        final(p)@ == blanked(old(p)@),
{
    p.set(8, 0);
    p.set(9, 0);
    p.set(10, 0);
    p.set(11, 0);
}

/// Writes a checksum into a packet.
pub fn stamp_crc(p: &mut Vec<u8>, crc: u32)
    requires
        old(p)@.len() >= 12,
    ensures
        final(p)@ == stamped(old(p)@, crc),
{
    p.set(8, (crc % 256) as u8);
    p.set(9, (crc / 256 % 256) as u8);
    p.set(10, (crc / 65536 % 256) as u8);
    p.set(11, (crc / 16777216) as u8);
}

/// Fills in the checksum of a packet.
pub fn set_crc32(p: &mut Vec<u8>)
    requires
        old(p)@.len() >= 12,
    ensures
        final(p)@ == sealed(old(p)@),
{
    let ghost was = p@;
    blank_crc(p);
    let crc = hash_crc32(p.as_slice());
    stamp_crc(p, crc);
    assert(p@ =~= sealed(was));
}

// ---------------------------------------------------------------------------
// Packets
// ---------------------------------------------------------------------------

/// The first bytes of what a server sends.
pub open spec fn server_magic() -> Seq<u8> {
    SERVER_MAGIC@
}

/// The first bytes of what a client sends.
pub open spec fn client_magic() -> Seq<u8> {
    CLIENT_MAGIC@
}

/// The header of a packet, with its checksum still blank.
pub open spec fn header(msg_type: u32, payload_len: u16, server_id: u32) -> Seq<u8> {
    server_magic() + numeric::le16(PROTOCOL_VERSION) + numeric::le16(payload_len) + seq![
        0u8,
        0,
        0,
        0,
    ] + numeric::le32(server_id) + numeric::le32(msg_type)
}

/// The header of a packet, with its checksum still blank.
pub fn build_header(msg_type: u32, payload_len: u16, server_id: u32) -> (r: Vec<u8>)
    ensures
        r@ == header(msg_type, payload_len, server_id),
        r@.len() == HEADER_LEN,
{
    let magic = SERVER_MAGIC;
    let mut h: Vec<u8> = vec![magic[0], magic[1], magic[2], magic[3]];
    numeric::push_le16(&mut h, PROTOCOL_VERSION);
    numeric::push_le16(&mut h, payload_len);
    h.push(0);
    h.push(0);
    h.push(0);
    h.push(0);
    numeric::push_le32(&mut h, server_id);
    numeric::push_le32(&mut h, msg_type);
    assert(h@ =~= header(msg_type, payload_len, server_id));
    h
}

/// The answer to a request for the version.
pub open spec fn version_packet(server_id: u32) -> Seq<u8> {
    sealed(header(MSG_VERSION, 2, server_id) + numeric::le16(PROTOCOL_VERSION))
}

/// The answer to a request for the version.
pub fn build_version_reply(server_id: u32) -> (r: Vec<u8>)
    ensures
        r@ == version_packet(server_id),
{
    let mut p = build_header(MSG_VERSION, 2, server_id);
    numeric::push_le16(&mut p, PROTOCOL_VERSION);
    set_crc32(&mut p);
    p
}

/// Whether a character is a hexadecimal digit.
pub open spec fn is_hex(c: char) -> bool {
    '0' <= c <= '9' || 'a' <= c <= 'f' || 'A' <= c <= 'F'
}

/// The value of a hexadecimal digit.
pub open spec fn hex_value(c: char) -> int {
    if '0' <= c <= '9' {
        c as int - 48
    } else if 'a' <= c <= 'f' {
        c as int - 87
    } else {
        c as int - 55
    }
}

/// The hexadecimal digits of a text.
pub open spec fn hex_digits(s: Seq<char>) -> Seq<char>
    decreases s.len(),
{
    if s.len() == 0 {
        Seq::empty()
    } else if is_hex(s.last()) {
        hex_digits(s.drop_last()).push(s.last())
    } else {
        hex_digits(s.drop_last())
    }
}

/// A byte of an address, from the digits of the address; 0 where there are too
/// few.
pub open spec fn mac_byte(digits: Seq<char>, i: int) -> u8 {
    if 2 * i + 2 <= digits.len() {
        (hex_value(digits[2 * i]) * 16 + hex_value(digits[2 * i + 1])) as u8
    } else {
        0
    }
}

/// The six bytes of an address, whatever separates its digits.
pub open spec fn mac_bytes(mac: Seq<char>) -> Seq<u8> {
    Seq::new(6, |i: int| mac_byte(hex_digits(mac), i))
}

fn digit_value(c: char) -> (r: u8)
    requires
        is_hex(c),
    ensures
        r == hex_value(c),
        r < 16,
{
    let v: u32 = c as u32;
    if '0' <= c && c <= '9' {
        (v - 48) as u8
    } else if 'a' <= c && c <= 'f' {
        (v - 87) as u8
    } else {
        (v - 55) as u8
    }
}

/// The six bytes of an address, whatever separates its digits.
pub fn parse_mac_str(mac: &str) -> (r: [u8; 6])
    ensures
        r@ == mac_bytes(mac@),
{
    let chars = text::chars_of(mac);
    let mut digits: Vec<char> = Vec::new();
    let mut i: usize = 0;
    while i < chars.len()
        invariant
            i <= chars@.len(),
            digits@ == hex_digits(chars@.take(i as int)),
            forall|j: int| 0 <= j < digits@.len() ==> is_hex(#[trigger] digits@[j]),
        decreases chars@.len() - i,
    {
        assert(chars@.take(i + 1).drop_last() =~= chars@.take(i as int));
        let c = chars[i];
        if ('0' <= c && c <= '9') || ('a' <= c && c <= 'f') || ('A' <= c && c <= 'F') {
            digits.push(c);
        }
        i = i + 1;
    }
    assert(chars@.take(chars@.len() as int) =~= mac@);
    let mut out: [u8; 6] = [0, 0, 0, 0, 0, 0];
    let mut k: usize = 0;
    while k < 6
        invariant
            k <= 6,
            digits@ == hex_digits(mac@),
            forall|j: int| 0 <= j < digits@.len() ==> is_hex(#[trigger] digits@[j]),
            forall|j: int| 0 <= j < k ==> #[trigger] out@[j] == mac_byte(digits@, j),
            forall|j: int| k <= j < 6 ==> #[trigger] out@[j] == 0,
        decreases 6 - k,
    {
        if digits.len() >= 2 * k + 2 {
            let high: u8 = digit_value(digits[2 * k]);
            let low: u8 = digit_value(digits[2 * k + 1]);
            out[k] = high * 16 + low;
        }
        k = k + 1;
    }
    assert(out@ =~= mac_bytes(mac@));
    out
}

/// How full a battery is, in the terms of the protocol.
pub open spec fn battery_code(percent: u8, charging: bool) -> u8 {
    if charging && percent >= 99 {
        0xEF
    } else if charging {
        0xEE
    } else if percent >= 80 {
        0x05
    } else if percent >= 60 {
        0x04
    } else if percent >= 40 {
        0x03
    } else if percent >= 20 {
        0x02
    } else {
        0x01
    }
}

/// How full a battery is, in the terms of the protocol.
pub fn battery_to_dsu(percent: u8, charging: bool) -> (r: u8)
    ensures
        r == battery_code(percent, charging),
{
    if charging && percent >= 99 {
        return 0xEF;
    }
    if charging {
        return 0xEE;
    }
    if percent >= 80 {
        return 0x05;
    }
    if percent >= 60 {
        return 0x04;
    }
    if percent >= 40 {
        return 0x03;
    }
    if percent >= 20 {
        return 0x02;
    }
    0x01
}

/// Whether there is a controller in a slot: the active one is in the first.
pub open spec fn is_in_slot(c: ControllerModel, slot: int) -> bool {
    slot == 0 && c.connected
}

/// Whether there is a controller in a slot.
pub fn slot_connected(controller: &ControllerState, slot: usize) -> (r: bool)
    ensures
        r == is_in_slot(controller.deep_view(), slot as int),
{
    slot == 0 && controller.connected
}

/// What is in a slot.
#[derive(Clone, Copy, Debug, PartialEq, Eq)]
pub struct SlotInfo {
    pub state: u8,
    pub model: u8,
    pub connection_type: u8,
    pub mac: [u8; 6],
    pub battery: u8,
}

impl SlotInfo {
    /// The bytes that describe what is in a slot, but for the slot itself.
    pub open spec fn bytes(self) -> Seq<u8> {
        seq![self.state, self.model, self.connection_type] + self.mac@ + seq![self.battery]
    }
}

impl Default for SlotInfo {
    /// An empty slot.
    fn default() -> (r: Self)
        ensures
            r.bytes() == seq![0u8, 0, 0, 0, 0, 0, 0, 0, 0, 0],
    {
        let r = SlotInfo { state: 0, model: 0, connection_type: 0, mac: [0; 6], battery: 0 };
        assert(r.bytes() =~= seq![0u8, 0, 0, 0, 0, 0, 0, 0, 0, 0]);
        r
    }
}

/// The six bytes of the address of a controller.
pub open spec fn controller_mac(c: ControllerModel) -> Seq<u8> {
    match c.device_info {
        Some(info) => mac_bytes(info.mac_address),
        None => seq![0u8, 0, 0, 0, 0, 0],
    }
}

/// The bytes that describe what is in a slot.
pub open spec fn slot_bytes(c: ControllerModel, slot: int) -> Seq<u8> {
    if is_in_slot(c, slot) {
        seq![
            2u8,
            2u8,
            if c.connection_type == ConnectionType::Usb {
                1u8
            } else {
                2u8
            },
        ] + controller_mac(c) + seq![battery_code(c.battery_percent, c.charging)]
    } else {
        seq![0u8, 0, 0, 0, 0, 0, 0, 0, 0, 0]
    }
}

/// What is in a slot.
pub fn slot_info(controller: &ControllerState, slot: usize) -> (r: SlotInfo)
    ensures
        r.bytes() == slot_bytes(controller.deep_view(), slot as int),
        is_in_slot(controller.deep_view(), slot as int) ==> r.mac@ == controller_mac(
            controller.deep_view(),
        ),
        !is_in_slot(controller.deep_view(), slot as int) ==> r.mac@ == seq![0u8, 0, 0, 0, 0, 0],
{
    if slot != 0 || !controller.connected {
        let r = SlotInfo {
            state: 0,
            model: 0,
            connection_type: 0,
            mac: [0, 0, 0, 0, 0, 0],
            battery: 0,
        };
        assert(r.mac@ =~= seq![0u8, 0, 0, 0, 0, 0]);
        assert(r.bytes() =~= slot_bytes(controller.deep_view(), slot as int));
        return r;
    }
    let mac: [u8; 6] = match &controller.device_info {
        Some(info) => parse_mac_str(info.mac_address.as_str()),
        None => [0, 0, 0, 0, 0, 0],
    };
    assert(mac@ =~= controller_mac(controller.deep_view()));
    let connection_type: u8 = match controller.connection_type {
        ConnectionType::Usb => 1,
        ConnectionType::Bluetooth => 2,
    };
    let r = SlotInfo {
        state: 2,
        model: 2,
        connection_type,
        mac,
        battery: battery_to_dsu(controller.battery_percent, controller.charging),
    };
    assert(r.bytes() =~= slot_bytes(controller.deep_view(), slot as int));
    r
}

fn push_slot(p: &mut Vec<u8>, slot: u8, info: &SlotInfo)
    ensures
        final(p)@ == old(p)@ + (seq![slot] + info.bytes()),
{
    let ghost was = p@;
    p.push(slot);
    p.push(info.state);
    p.push(info.model);
    p.push(info.connection_type);
    append_bytes(p, &info.mac);
    p.push(info.battery);
    assert(p@ =~= was + (seq![slot] + info.bytes()));
}

/// The packet that says what is in a slot.
pub open spec fn port_packet(slot: u8, c: ControllerModel, server_id: u32) -> Seq<u8> {
    sealed(
        header(MSG_PORT_INFO, 12, server_id) + (seq![slot] + slot_bytes(c, slot as int)) + seq![
            0u8,
        ],
    )
}

/// The packet that says what is in a slot.
pub fn build_port_info(slot: u8, controller: &ControllerState, server_id: u32) -> (r: Vec<u8>)
    ensures
        r@ == port_packet(slot, controller.deep_view(), server_id),
{
    let info = slot_info(controller, slot as usize);
    let mut p = build_header(MSG_PORT_INFO, 12, server_id);
    push_slot(&mut p, slot, &info);
    p.push(0);
    assert(p@ =~= header(MSG_PORT_INFO, 12, server_id) + (seq![slot] + slot_bytes(
        controller.deep_view(),
        slot as int,
    )) + seq![0u8]);
    set_crc32(&mut p);
    p
}

/// A weight that counts where a button is held down.
pub open spec fn weight(held: bool, w: u8) -> int {
    if held {
        w as int
    } else {
        0
    }
}

/// Four buttons as the weights 8, 4, 2 and 1.
#[verifier::opaque]
pub open spec fn nibble_of(a: bool, b: bool, c: bool, d: bool) -> int {
    weight(a, 8) + weight(b, 4) + weight(c, 2) + weight(d, 1)
}

/// The first byte of buttons: the directions and the small buttons, left, down,
/// right, up, plus, right stick, left stick and minus from the highest bit to
/// the lowest.
pub open spec fn button_byte_1(b: ButtonState) -> int {
    16 * nibble_of(b.dpad_left, b.dpad_down, b.dpad_right, b.dpad_up) + nibble_of(
        b.plus,
        b.stick_r,
        b.stick_l,
        b.minus,
    )
}

/// The second byte of buttons: the letters and the shoulders, Y, B, A, X, R,
/// L, ZR and ZL from the highest bit to the lowest.
pub open spec fn button_byte_2(b: ButtonState) -> int {
    16 * nibble_of(b.y, b.b, b.a, b.x) + nibble_of(b.r, b.l, b.zr, b.zl)
}

/// Four buttons as the weights 8, 4, 2 and 1.
fn nibble(a: bool, b: bool, c: bool, d: bool) -> (r: u8)
    ensures
        r == nibble_of(a, b, c, d),
        r <= 15,
{
    proof {
        reveal(nibble_of);
    }
    let mut r: u8 = 0;
    if a {
        r = r + 8;
    }
    if b {
        r = r + 4;
    }
    if c {
        r = r + 2;
    }
    if d {
        r = r + 1;
    }
    r
}

/// The two bytes of buttons.
pub fn encode_buttons(buttons: &ButtonState) -> (r: (u8, u8))
    ensures
        r.0 == button_byte_1(*buttons),
        r.1 == button_byte_2(*buttons),
{
    let b = buttons;
    let directions: u8 = nibble(b.dpad_left, b.dpad_down, b.dpad_right, b.dpad_up);
    let small: u8 = nibble(b.plus, b.stick_r, b.stick_l, b.minus);
    let letters: u8 = nibble(b.y, b.b, b.a, b.x);
    let shoulders: u8 = nibble(b.r, b.l, b.zr, b.zl);
    (directions * 16 + small, letters * 16 + shoulders)
}

/// A button as a pressure: all or nothing.
pub open spec fn pressure(held: bool) -> u8 {
    if held {
        255
    } else {
        0
    }
}

/// A button as a pressure.
pub fn u8_from_bool(b: bool) -> (r: u8)
    ensures
        r == pressure(b),
{
    if b {
        255
    } else {
        0
    }
}

/// What is measured of a controller besides its buttons, as bytes: the four
/// coordinates of the sticks, and the two triggers.
#[derive(Clone, Copy, Debug, PartialEq, Eq)]
pub struct PadAnalog {
    pub sticks: [u8; 4],
    pub left_trigger: u8,
    pub right_trigger: u8,
}

/// The pressures of the buttons and the triggers.
pub open spec fn analog_bytes(b: ButtonState, left_trigger: u8, right_trigger: u8) -> Seq<u8> {
    seq![
        pressure(b.dpad_left),
        pressure(b.dpad_down),
        pressure(b.dpad_right),
        pressure(b.dpad_up),
        pressure(b.y),
        pressure(b.b),
        pressure(b.a),
        pressure(b.x),
        pressure(b.r),
        pressure(b.l),
        right_trigger,
        left_trigger,
    ]
}

/// The pressures of the buttons and the triggers.
pub fn encode_analog(buttons: &ButtonState, left_trigger: u8, right_trigger: u8) -> (r: [u8; 12])
    ensures
        r@ == analog_bytes(*buttons, left_trigger, right_trigger),
{
    let r = [
        u8_from_bool(buttons.dpad_left),
        u8_from_bool(buttons.dpad_down),
        u8_from_bool(buttons.dpad_right),
        u8_from_bool(buttons.dpad_up),
        u8_from_bool(buttons.y),
        u8_from_bool(buttons.b),
        u8_from_bool(buttons.a),
        u8_from_bool(buttons.x),
        u8_from_bool(buttons.r),
        u8_from_bool(buttons.l),
        right_trigger,
        left_trigger,
    ];
    assert(r@ =~= analog_bytes(*buttons, left_trigger, right_trigger));
    r
}

/// Acceleration and rotation, as bytes; nothing moves where there is no
/// reading.
pub open spec fn motion_bytes(imu: Option<[Real32; 6]>) -> Seq<u8> {
    match imu {
        Some(m) => numeric::le32(m[0].bits) + numeric::le32(m[1].bits) + numeric::le32(m[2].bits)
            + numeric::le32(m[3].bits) + numeric::le32(m[4].bits) + numeric::le32(m[5].bits),
        None => Seq::new(24, |i: int| 0u8),
    }
}

/// What a packet on the state of a controller says after its header.
pub open spec fn pad_payload(
    slot: u8,
    counter: u32,
    c: ControllerModel,
    analog: PadAnalog,
    imu: Option<[Real32; 6]>,
    timestamp: u64,
) -> Seq<u8> {
    (seq![slot] + slot_bytes(c, slot as int)) + seq![
        if c.connected {
            1u8
        } else {
            0u8
        },
    ] + numeric::le32(counter) + seq![
        button_byte_1(c.buttons) as u8,
        button_byte_2(c.buttons) as u8,
        if c.buttons.home {
            1u8
        } else {
            0u8
        },
        0u8,
    ] + analog.sticks@ + analog_bytes(c.buttons, analog.left_trigger, analog.right_trigger)
        + Seq::new(12, |i: int| 0u8) + numeric::le64(timestamp) + motion_bytes(imu)
}

/// The packet on the state of a controller.
pub open spec fn pad_packet(
    slot: u8,
    counter: u32,
    c: ControllerModel,
    analog: PadAnalog,
    imu: Option<[Real32; 6]>,
    timestamp: u64,
    server_id: u32,
) -> Seq<u8> {
    sealed(
        header(MSG_PAD_DATA, 80, server_id) + pad_payload(slot, counter, c, analog, imu, timestamp),
    )
}

fn push_zeros(p: &mut Vec<u8>, n: usize)
    ensures
        final(p)@ == old(p)@ + Seq::new(n as nat, |i: int| 0u8),
{
    let ghost was = p@;
    let mut i: usize = 0;
    while i < n
        invariant
            i <= n,
            p@ =~= was + Seq::new(i as nat, |j: int| 0u8),
        decreases n - i,
    {
        p.push(0);
        i = i + 1;
    }
}

fn push_motion(p: &mut Vec<u8>, imu: &Option<[Real32; 6]>)
    ensures
        final(p)@ == old(p)@ + motion_bytes(*imu),
{
    let ghost was = p@;
    match imu {
        Some(m) => {
            numeric::push_le32(p, m[0].bits);
            numeric::push_le32(p, m[1].bits);
            numeric::push_le32(p, m[2].bits);
            numeric::push_le32(p, m[3].bits);
            numeric::push_le32(p, m[4].bits);
            numeric::push_le32(p, m[5].bits);
            assert(p@ =~= was + motion_bytes(*imu));
        },
        None => {
            push_zeros(p, 24);
        },
    }
}

fn push_payload(
    p: &mut Vec<u8>,
    slot: u8,
    counter: u32,
    controller: &ControllerState,
    analog: &PadAnalog,
    imu: &Option<[Real32; 6]>,
    timestamp: u64,
)
    ensures
        final(p)@ == old(p)@ + pad_payload(
            slot,
            counter,
            controller.deep_view(),
            *analog,
            *imu,
            timestamp,
        ),
{
    let ghost was = p@;
    let info = slot_info(controller, slot as usize);
    push_slot(p, slot, &info);
    let connected: u8 = if controller.connected {
        1
    } else {
        0
    };
    p.push(connected);
    numeric::push_le32(p, counter);
    let (first, second) = encode_buttons(&controller.buttons);
    p.push(first);
    p.push(second);
    let home: u8 = if controller.buttons.home {
        1
    } else {
        0
    };
    p.push(home);
    p.push(0);
    append_bytes(p, &analog.sticks);
    let pressures = encode_analog(&controller.buttons, analog.left_trigger, analog.right_trigger);
    append_bytes(p, &pressures);
    push_zeros(p, 12);
    numeric::push_le64(p, timestamp);
    push_motion(p, imu);
    assert(p@ =~= was + pad_payload(
        slot,
        counter,
        controller.deep_view(),
        *analog,
        *imu,
        timestamp,
    ));
}

/// The packet on the state of a controller.
pub fn build_pad_data(
    slot: u8,
    counter: u32,
    controller: &ControllerState,
    analog: &PadAnalog,
    imu: &Option<[Real32; 6]>,
    timestamp: u64,
    server_id: u32,
) -> (r: Vec<u8>)
    ensures
        r@ == pad_packet(
            slot,
            counter,
            controller.deep_view(),
            *analog,
            *imu,
            timestamp,
            server_id,
        ),
{
    let mut p = build_header(MSG_PAD_DATA, 80, server_id);
    push_payload(&mut p, slot, counter, controller, analog, imu, timestamp);
    set_crc32(&mut p);
    p
}

/// What the packet on a controller that is not there says after its header: a
/// fully charged controller in the first slot, at rest.
pub open spec fn demo_payload(counter: u32, timestamp: u64) -> Seq<u8> {
    seq![0u8, 2, 2, 2, 1, 2, 3, 4, 5, 6, 8, 1] + numeric::le32(counter) + seq![
        128u8,
        128,
        128,
        128,
    ] + Seq::new(28, |i: int| 0u8) + numeric::le64(timestamp) + motion_bytes(
        Some(
            [
                Real32 { bits: 0 },
                Real32 { bits: 0 },
                Real32 { bits: 0x3F80_0000 },
                Real32 { bits: 0 },
                Real32 { bits: 0 },
                Real32 { bits: 0 },
            ],
        ),
    )
}

/// The packet on a controller that is not there, to try clients with.
pub fn build_demo_pad_data(server_id: u32, counter: u32, timestamp: u64) -> (r: Vec<u8>)
    ensures
        r@ == sealed(header(MSG_PAD_DATA, 80, server_id) + demo_payload(counter, timestamp)),
{
    let mut p = build_header(MSG_PAD_DATA, 80, server_id);
    let about: [u8; 12] = [0, 2, 2, 2, 1, 2, 3, 4, 5, 6, 8, 1];
    append_bytes(&mut p, &about);
    numeric::push_le32(&mut p, counter);
    let sticks: [u8; 4] = [128, 128, 128, 128];
    append_bytes(&mut p, &sticks);
    push_zeros(&mut p, 28);
    numeric::push_le64(&mut p, timestamp);
    let zero = Real32::zero();
    let motion: [Real32; 6] = [zero, zero, Real32::from_bits(0x3F80_0000), zero, zero, zero];
    push_motion(&mut p, &Some(motion));
    assert(about@ =~= seq![0u8, 2, 2, 2, 1, 2, 3, 4, 5, 6, 8, 1]);
    assert(sticks@ =~= seq![128u8, 128, 128, 128]);
    assert(p@ =~= header(MSG_PAD_DATA, 80, server_id) + demo_payload(counter, timestamp));
    set_crc32(&mut p);
    p
}

// ---------------------------------------------------------------------------
// Requests
// ---------------------------------------------------------------------------

/// Which slots a client wants to hear of.
#[derive(Clone, Copy, Debug, PartialEq, Eq, Structural)]
pub enum Subscription {
    All,
    Slot(u8),
}

/// The type of a packet.
pub open spec fn message_type(data: Seq<u8>) -> u32 {
    numeric::from_le32(data[16], data[17], data[18], data[19])
}

/// Whether some bytes are a packet of a client.
pub open spec fn is_client_packet(data: Seq<u8>) -> bool {
    data.len() >= HEADER_LEN && data.take(4) == client_magic() && crc_holds(data)
}

/// The slots of a list that exist.
pub open spec fn known_slots(slots: Seq<u8>) -> Seq<u8>
    decreases slots.len(),
{
    if slots.len() == 0 {
        Seq::empty()
    } else if slots.last() < SLOT_COUNT {
        known_slots(slots.drop_last()).push(slots.last())
    } else {
        known_slots(slots.drop_last())
    }
}

/// The slots that a request asks about: those of its list that exist, as far
/// as its count goes, or all of them. A negative count goes to the end of the
/// list.
pub open spec fn asked_slots(data: Seq<u8>) -> Seq<u8> {
    if data.len() < 24 {
        Seq::empty()
    } else {
        let count = numeric::from_le32(data[20], data[21], data[22], data[23]);
        let slots = data.skip(24);
        if count == 0 || slots.len() == 0 {
            seq![0u8, 1, 2, 3]
        } else if count >= 0x8000_0000 || count >= slots.len() {
            known_slots(slots)
        } else {
            known_slots(slots.take(count as int))
        }
    }
}

/// What a request subscribes to: a slot, by its number or by the address of
/// its controller, or all of them. None where the request is too short.
pub open spec fn asked_subscription(data: Seq<u8>, c: ControllerModel) -> Option<Subscription> {
    if data.len() < 28 {
        None
    } else if data[20] % 2 == 1 && data[21] < SLOT_COUNT {
        Some(Subscription::Slot(data[21]))
    } else if data[20] / 2 % 2 == 1 && data.subrange(22, 28) == (if c.connected {
        controller_mac(c)
    } else {
        seq![0u8, 0, 0, 0, 0, 0]
    }) {
        Some(Subscription::Slot(0))
    } else {
        Some(Subscription::All)
    }
}

/// The answers to a packet.
pub open spec fn answers(data: Seq<u8>, c: ControllerModel, server_id: u32) -> Seq<Seq<u8>> {
    if !is_client_packet(data) {
        Seq::empty()
    } else if message_type(data) == MSG_VERSION {
        seq![version_packet(server_id)]
    } else if message_type(data) == MSG_PORT_INFO {
        asked_slots(data).map_values(|slot: u8| port_packet(slot, c, server_id))
    } else {
        Seq::empty()
    }
}

/// What a packet subscribes its sender to, if it is a subscription.
pub open spec fn registration(data: Seq<u8>, c: ControllerModel) -> Option<Subscription> {
    if is_client_packet(data) && message_type(data) == MSG_PAD_DATA {
        asked_subscription(data, c)
    } else {
        None
    }
}

/// What is done about a packet.
#[derive(Debug)]
pub struct PacketAction {
    /// The packets to send back.
    pub replies: Vec<Vec<u8>>,
    /// What the sender is subscribed to from now on.
    pub subscribe: Option<Subscription>,
}

fn list_asked_slots(data: &[u8]) -> (r: Vec<u8>)
    ensures
        r@ == asked_slots(data@),
{
    let mut out: Vec<u8> = Vec::new();
    if data.len() < 24 {
        return out;
    }
    let count = numeric::u32_le(data[20], data[21], data[22], data[23]);
    if count == 0 || data.len() == 24 {
        out = vec![0, 1, 2, 3];
        assert(out@ =~= seq![0u8, 1, 2, 3]);
        return out;
    }
    let ghost slots = data@.skip(24);
    let listed: usize = data.len() - 24;
    let end: usize = if count >= 0x8000_0000 || count as usize >= listed {
        listed
    } else {
        count as usize
    };
    let mut i: usize = 0;
    while i < end
        invariant
            i <= end <= listed,
            listed == data@.len() - 24,
            24 + listed <= usize::MAX,
            slots == data@.skip(24),
            out@ == known_slots(slots.take(i as int)),
        decreases end - i,
    {
        assert(slots.take(i + 1).drop_last() =~= slots.take(i as int));
        assert(slots.take(i + 1).last() == data@[24 + i]);
        let slot: u8 = data[24 + i];
        if slot < SLOT_COUNT {
            out.push(slot);
        }
        i = i + 1;
    }
    assert(slots.take(slots.len() as int) =~= slots);
    out
}

fn read_subscription(data: &[u8], controller: &ControllerState) -> (r: Option<Subscription>)
    ensures
        r == asked_subscription(data@, controller.deep_view()),
{
    if data.len() < 28 {
        return None;
    }
    let flags: u8 = data[20];
    let slot: u8 = data[21];
    if flags % 2 == 1 && slot < SLOT_COUNT {
        return Some(Subscription::Slot(slot));
    }
    if flags / 2 % 2 == 1 {
        let info = slot_info(controller, 0);
        let ghost mac = data@.subrange(22, 28);
        if info.mac[0] == data[22] && info.mac[1] == data[23] && info.mac[2] == data[24]
            && info.mac[3] == data[25] && info.mac[4] == data[26] && info.mac[5] == data[27] {
            assert(mac =~= info.mac@);
            return Some(Subscription::Slot(0));
        }
        assert(mac[0] == data@[22] && mac[1] == data@[23] && mac[2] == data@[24] && mac[3]
            == data@[25] && mac[4] == data@[26] && mac[5] == data@[27]);
        assert(mac != info.mac@);
    }
    Some(Subscription::All)
}

fn starts_like_client(data: &[u8]) -> (r: bool)
    requires
        data@.len() >= 4,
    ensures
        r == (data@.take(4) == client_magic()),
{
    let ghost head = data@.take(4);
    let magic = CLIENT_MAGIC;
    let r = data[0] == magic[0] && data[1] == magic[1] && data[2] == magic[2] && data[3]
        == magic[3];
    assert(head[0] == data@[0] && head[1] == data@[1] && head[2] == data@[2] && head[3]
        == data@[3]);
    if r {
        assert(head =~= client_magic());
    } else {
        assert(client_magic()[0] == 0x44 && client_magic()[1] == 0x53 && client_magic()[2] == 0x55
            && client_magic()[3] == 0x43);
    }
    r
}

/// Decides what is done about a packet.
pub fn handle_packet(data: &[u8], controller: &ControllerState, server_id: u32) -> (r: PacketAction)
    ensures
        r.replies.deep_view() == answers(data@, controller.deep_view(), server_id),
        r.subscribe == registration(data@, controller.deep_view()),
{
    let accepted = data.len() >= HEADER_LEN && starts_like_client(data) && verify_crc(data);
    handle_checked(data, accepted, controller, server_id)
}

/// Decides what is done about a packet that is known to be of a client, or
/// not to be.
pub fn handle_checked(
    data: &[u8],
    accepted: bool,
    controller: &ControllerState,
    server_id: u32,
) -> (r: PacketAction)
    requires
        accepted ==> data@.len() >= HEADER_LEN,
    ensures
        accepted == is_client_packet(data@) ==> r.replies.deep_view() == answers(
            data@,
            controller.deep_view(),
            server_id,
        ) && r.subscribe == registration(data@, controller.deep_view()),
        !accepted ==> r.replies@.len() == 0 && r.subscribe is None,
        accepted && message_type(data@) == MSG_VERSION ==> r.replies.deep_view() == seq![
            version_packet(server_id),
        ] && r.subscribe is None,
        accepted && message_type(data@) == MSG_PORT_INFO ==> r.replies.deep_view() == asked_slots(
            data@,
        ).map_values(|slot: u8| port_packet(slot, controller.deep_view(), server_id))
            && r.subscribe is None,
        accepted && message_type(data@) == MSG_PAD_DATA ==> r.replies@.len() == 0 && r.subscribe
            == asked_subscription(data@, controller.deep_view()),
        accepted && message_type(data@) != MSG_VERSION && message_type(data@) != MSG_PORT_INFO
            && message_type(data@) != MSG_PAD_DATA ==> r.replies@.len() == 0 && r.subscribe is None,
{
    let mut replies: Vec<Vec<u8>> = Vec::new();
    assert(replies.deep_view() =~= Seq::<Seq<u8>>::empty());
    if !accepted {
        return PacketAction { replies, subscribe: None };
    }
    let msg = numeric::u32_le(data[16], data[17], data[18], data[19]);
    if msg == MSG_VERSION {
        replies.push(build_version_reply(server_id));
        proof {
            lemma_bytes_deep(replies);
        }
        assert(replies.deep_view() =~= seq![version_packet(server_id)]);
        return PacketAction { replies, subscribe: None };
    }
    if msg == MSG_PORT_INFO {
        let slots = list_asked_slots(data);
        let packets = describe_slots(&slots, controller, server_id);
        return PacketAction { replies: packets, subscribe: None };
    }
    if msg == MSG_PAD_DATA {
        return PacketAction { replies, subscribe: read_subscription(data, controller) };
    }
    PacketAction { replies, subscribe: None }
}

/// Packets seen through: each is its bytes.
proof fn lemma_bytes_deep(v: Vec<Vec<u8>>)
    ensures
        v.deep_view().len() == v@.len(),
        forall|i: int| 0 <= i < v@.len() ==> #[trigger] v.deep_view()[i] == v@[i]@,
{
    assert forall|i: int| 0 <= i < v@.len() implies #[trigger] v.deep_view()[i] == v@[i]@ by {
        assert(v.deep_view()[i] == v@[i].deep_view());
        assert(v@[i].deep_view() =~= v@[i]@);
    }
}

/// What a demonstration server makes of a packet.
#[derive(Debug, PartialEq, Eq)]
pub enum DemoAction {
    /// It comes from no client.
    Ignore,
    /// Its sender is a client.
    Remember,
    /// Its sender is a client, and gets an answer.
    Answer(Vec<u8>),
}

/// What a demonstration server makes of a packet. Every packet of a client
/// counts, whatever its checksum; a question for the version is answered.
pub fn handle_demo_packet(data: &[u8], server_id: u32) -> (r: DemoAction)
    ensures
        ({
            let known = data@.len() >= HEADER_LEN && data@.take(4) == client_magic();
            match r {
                DemoAction::Ignore => !known,
                DemoAction::Remember => known && message_type(data@) != MSG_VERSION,
                DemoAction::Answer(reply) => known && message_type(data@) == MSG_VERSION
                    && reply@ == version_packet(server_id),
            }
        }),
{
    if data.len() < HEADER_LEN || !starts_like_client(data) {
        return DemoAction::Ignore;
    }
    if numeric::u32_le(data[16], data[17], data[18], data[19]) == MSG_VERSION {
        return DemoAction::Answer(build_version_reply(server_id));
    }
    DemoAction::Remember
}

fn describe_slots(slots: &Vec<u8>, controller: &ControllerState, server_id: u32) -> (r: Vec<
    Vec<u8>,
>)
    ensures
        r.deep_view() == slots@.map_values(
            |slot: u8| port_packet(slot, controller.deep_view(), server_id),
        ),
{
    let mut out: Vec<Vec<u8>> = Vec::new();
    let mut i: usize = 0;
    while i < slots.len()
        invariant
            i <= slots@.len(),
            out@.len() == i,
            forall|j: int|
                0 <= j < i ==> (#[trigger] out@[j])@ == port_packet(
                    slots@[j],
                    controller.deep_view(),
                    server_id,
                ),
        decreases slots@.len() - i,
    {
        out.push(build_port_info(slots[i], controller, server_id));
        i = i + 1;
    }
    proof {
        lemma_bytes_deep(out);
    }
    assert(out.deep_view() =~= slots@.map_values(
        |slot: u8| port_packet(slot, controller.deep_view(), server_id),
    ));
    out
}

// ---------------------------------------------------------------------------
// Clients
// ---------------------------------------------------------------------------

/// A client: what it wants, and when it was last heard of.
#[derive(Clone, Copy, Debug, PartialEq, Eq, Structural)]
pub struct Client {
    pub last_seen_ms: u64,
    pub subscription: Subscription,
}

impl Client {
    /// Whether the client has been heard of lately.
    pub open spec fn active(self, now_ms: u64) -> bool {
        now_ms < self.last_seen_ms + CLIENT_TIMEOUT_MS
    }

    /// Whether the client wants to hear of a slot.
    pub open spec fn wants(self, slot: u8) -> bool {
        match self.subscription {
            Subscription::All => true,
            Subscription::Slot(s) => s == slot,
        }
    }

    /// A client that has just been heard of.
    pub fn new(subscription: Subscription, now_ms: u64) -> (r: Self)
        ensures
            r == (Client { last_seen_ms: now_ms, subscription }),
    {
        Client { last_seen_ms: now_ms, subscription }
    }

    /// Whether the client has been heard of lately.
    pub fn is_active(&self, now_ms: u64) -> (r: bool)
        ensures
            r == self.active(now_ms),
    {
        now_ms.saturating_sub(self.last_seen_ms) < CLIENT_TIMEOUT_MS
    }

    /// Whether the client wants to hear of a slot.
    pub fn wants_slot(&self, slot: u8) -> (r: bool)
        ensures
            r == self.wants(slot),
    {
        match self.subscription {
            Subscription::All => true,
            Subscription::Slot(s) => s == slot,
        }
    }
}

/// A client and its address.
#[derive(Debug)]
pub struct ClientEntry {
    pub addr: String,
    pub client: Client,
}

/// What a `ClientEntry` holds.
#[verifier::ext_equal]
pub struct ClientModel {
    pub addr: Seq<char>,
    pub client: Client,
}

impl DeepView for ClientEntry {
    type V = ClientModel;

    open spec fn deep_view(&self) -> ClientModel {
        ClientModel { addr: self.addr@, client: self.client }
    }
}

/// Whether no address occurs twice.
pub open spec fn distinct(clients: Seq<ClientModel>) -> bool {
    forall|i: int, j: int|
        0 <= i < j < clients.len() ==> #[trigger] clients[i].addr != #[trigger] clients[j].addr
}

/// The place of an address, or the number of clients where it is not there.
pub open spec fn place_of(clients: Seq<ClientModel>, addr: Seq<char>) -> int
    decreases clients.len(),
{
    if clients.len() == 0 {
        0
    } else if clients[0].addr == addr {
        0
    } else {
        1 + place_of(clients.skip(1), addr)
    }
}

/// The clients with one of them entered, in its old place or at the end.
pub open spec fn entered(clients: Seq<ClientModel>, addr: Seq<char>, client: Client) -> Seq<
    ClientModel,
> {
    let i = place_of(clients, addr);
    if i < clients.len() {
        clients.update(i, ClientModel { addr, client })
    } else {
        clients.push(ClientModel { addr, client })
    }
}

/// The clients that have been heard of lately.
pub open spec fn still_active(clients: Seq<ClientModel>, now_ms: u64) -> Seq<ClientModel>
    decreases clients.len(),
{
    if clients.len() == 0 {
        Seq::empty()
    } else if clients.last().client.active(now_ms) {
        still_active(clients.drop_last(), now_ms).push(clients.last())
    } else {
        still_active(clients.drop_last(), now_ms)
    }
}

/// The addresses that a packet on a slot goes to.
pub open spec fn recipients(clients: Seq<ClientModel>, now_ms: u64, slot: u8) -> Seq<Seq<char>>
    decreases clients.len(),
{
    if clients.len() == 0 {
        Seq::empty()
    } else if clients.last().client.active(now_ms) && clients.last().client.wants(slot) {
        recipients(clients.drop_last(), now_ms, slot).push(clients.last().addr)
    } else {
        recipients(clients.drop_last(), now_ms, slot)
    }
}

proof fn lemma_place_of(clients: Seq<ClientModel>, addr: Seq<char>)
    ensures
        0 <= place_of(clients, addr) <= clients.len(),
        place_of(clients, addr) < clients.len() ==> clients[place_of(clients, addr)].addr == addr,
        forall|i: int|
            0 <= i < place_of(clients, addr) ==> (#[trigger] clients[i]).addr != addr,
    decreases clients.len(),
{
    if clients.len() > 0 && clients[0].addr != addr {
        let rest = clients.skip(1);
        lemma_place_of(rest, addr);
        let p = place_of(rest, addr);
        assert forall|i: int| 0 <= i < p + 1 implies (#[trigger] clients[i]).addr != addr by {
            if i > 0 {
                assert(rest[i - 1] == clients[i]);
            }
        }
        if p < rest.len() {
            assert(rest[p] == clients[p + 1]);
        }
    }
}

proof fn lemma_place_is(clients: Seq<ClientModel>, addr: Seq<char>, at: int)
    requires
        0 <= at <= clients.len(),
        forall|i: int| 0 <= i < at ==> (#[trigger] clients[i]).addr != addr,
        at < clients.len() ==> clients[at].addr == addr,
    ensures
        place_of(clients, addr) == at,
{
    lemma_place_of(clients, addr);
}

/// The clients of a server.
#[derive(Debug)]
pub struct ClientTable {
    pub clients: Vec<ClientEntry>,
}

impl ClientTable {
    /// The clients.
    pub open spec fn listed(self) -> Seq<ClientModel> {
        self.clients.deep_view()
    }

    /// No address occurs twice.
    pub open spec fn wf(self) -> bool {
        distinct(self.listed())
    }

    /// No clients.
    pub fn new() -> (r: Self)
        ensures
            r.wf(),
            r.listed().len() == 0,
    {
        ClientTable { clients: Vec::new() }
    }

    /// Enters a client, in the place of what was known of its address.
    pub fn insert(&mut self, addr: &str, client: Client)
        requires
            old(self).wf(),
        ensures
            final(self).wf(),
            final(self).listed() == entered(old(self).listed(), addr@, client),
    {
        let ghost was = self.listed();
        let mut i: usize = 0;
        while i < self.clients.len()
            invariant
                i <= self.clients@.len(),
                was == self.listed(),
                was == old(self).listed(),
                distinct(was),
                forall|j: int| 0 <= j < i ==> (#[trigger] was[j]).addr != addr@,
            decreases self.clients@.len() - i,
        {
            assert(was[i as int] == self.clients@[i as int].deep_view());
            if same(self.clients[i].addr.as_str(), addr) {
                proof {
                    lemma_place_is(was, addr@, i as int);
                }
                self.clients.set(i, ClientEntry { addr: addr.to_owned(), client });
                assert(self.listed() =~= entered(was, addr@, client));
                assert forall|a: int| 0 <= a < was.len() implies (#[trigger] self.listed()[a]).addr
                    == was[a].addr by {}
                return ;
            }
            i = i + 1;
        }
        proof {
            lemma_place_is(was, addr@, i as int);
        }
        self.clients.push(ClientEntry { addr: addr.to_owned(), client });
        assert(self.listed() =~= entered(was, addr@, client));
    }

    /// The addresses that a packet on a slot goes to.
    pub fn select(&self, now_ms: u64, slot: u8) -> (r: Vec<String>)
        ensures
            r.deep_view() == recipients(self.listed(), now_ms, slot),
    {
        let ghost all = self.listed();
        let mut out: Vec<String> = Vec::new();
        let mut i: usize = 0;
        assert(out.deep_view() =~= Seq::<Seq<char>>::empty());
        while i < self.clients.len()
            invariant
                i <= self.clients@.len(),
                all == self.listed(),
                out.deep_view() == recipients(all.take(i as int), now_ms, slot),
            decreases self.clients@.len() - i,
        {
            assert(all.take(i + 1).drop_last() =~= all.take(i as int));
            assert(all.take(i + 1).last() == self.clients@[i as int].deep_view());
            let entry = &self.clients[i];
            if entry.client.is_active(now_ms) && entry.client.wants_slot(slot) {
                let ghost before = out.deep_view();
                out.push(entry.addr.clone());
                assert(out.deep_view() =~= before.push(entry.addr@));
            }
            i = i + 1;
        }
        assert(all.take(all.len() as int) =~= all);
        out
    }

    /// Drops the clients that have not been heard of for too long.
    pub fn expire(&mut self, now_ms: u64)
        requires
            old(self).wf(),
        ensures
            final(self).wf(),
            final(self).listed() == still_active(old(self).listed(), now_ms),
    {
        let ghost all = self.listed();
        let mut kept: Vec<ClientEntry> = Vec::new();
        let mut i: usize = 0;
        assert(kept.deep_view() =~= Seq::<ClientModel>::empty());
        while i < self.clients.len()
            invariant
                i <= self.clients@.len(),
                all == self.listed(),
                kept.deep_view() == still_active(all.take(i as int), now_ms),
            decreases self.clients@.len() - i,
        {
            assert(all.take(i + 1).drop_last() =~= all.take(i as int));
            assert(all.take(i + 1).last() == self.clients@[i as int].deep_view());
            if self.clients[i].client.is_active(now_ms) {
                let ghost before = kept.deep_view();
                let entry = ClientEntry {
                    addr: self.clients[i].addr.clone(),
                    client: self.clients[i].client,
                };
                let ghost shown = entry.deep_view();
                kept.push(entry);
                assert(kept.deep_view() =~= before.push(shown));
            }
            i = i + 1;
        }
        assert(all.take(all.len() as int) =~= all);
        proof {
            lemma_active_are_distinct(all, now_ms);
        }
        self.clients = kept;
    }
}

/// Every client that is still active was there before, in the same order.
proof fn lemma_active_comes_from(clients: Seq<ClientModel>, now_ms: u64, i: int) -> (r: int)
    requires
        0 <= i < still_active(clients, now_ms).len(),
    ensures
        i <= r < clients.len(),
        clients[r] == still_active(clients, now_ms)[i],
        clients[r].client.active(now_ms),
    decreases clients.len(),
{
    let rest = clients.drop_last();
    let kept = still_active(rest, now_ms);
    if i < kept.len() {
        let r = lemma_active_comes_from(rest, now_ms, i);
        r
    } else {
        lemma_active_is_shorter(rest, now_ms);
        clients.len() - 1
    }
}

proof fn lemma_active_is_shorter(clients: Seq<ClientModel>, now_ms: u64)
    ensures
        still_active(clients, now_ms).len() <= clients.len(),
    decreases clients.len(),
{
    if clients.len() > 0 {
        lemma_active_is_shorter(clients.drop_last(), now_ms);
    }
}

proof fn lemma_active_are_distinct(clients: Seq<ClientModel>, now_ms: u64)
    requires
        distinct(clients),
    ensures
        distinct(still_active(clients, now_ms)),
    decreases clients.len(),
{
    if clients.len() > 0 {
        let rest = clients.drop_last();
        assert forall|i: int, j: int| 0 <= i < j < rest.len() implies #[trigger] rest[i].addr
            != #[trigger] rest[j].addr by {
            assert(rest[i] == clients[i] && rest[j] == clients[j]);
        }
        lemma_active_are_distinct(rest, now_ms);
        let kept = still_active(rest, now_ms);
        let all = still_active(clients, now_ms);
        assert forall|i: int, j: int| 0 <= i < j < all.len() implies #[trigger] all[i].addr
            != #[trigger] all[j].addr by {
            if j < kept.len() {
                assert(all[i] == kept[i] && all[j] == kept[j]);
            } else {
                assert(all[i] == kept[i]);
                let r = lemma_active_comes_from(rest, now_ms, i);
                assert(clients[r] == rest[r]);
            }
        }
    }
}

// ---------------------------------------------------------------------------
// The server
// ---------------------------------------------------------------------------

/// A running server: its clients, and how many packets it has numbered.
#[derive(Debug)]
pub struct DsuServer {
    pub table: ClientTable,
    pub counter: u32,
    pub server_id: u32,
}

/// A packet and where it goes.
#[derive(Debug)]
pub struct Broadcast {
    pub packet: Vec<u8>,
    pub to: Vec<String>,
}

/// The number after a packet's, which starts anew at the end.
pub open spec fn next_number(n: u32) -> u32 {
    if n == u32::MAX {
        0
    } else {
        (n + 1) as u32
    }
}

impl DsuServer {
    pub open spec fn wf(self) -> bool {
        self.table.wf()
    }

    /// A server without clients.
    pub fn new() -> (r: Self)
        ensures
            r.wf(),
            r.table.listed().len() == 0,
            r.counter == 0,
            r.server_id == DEFAULT_SERVER_ID,
    {
        DsuServer { table: ClientTable::new(), counter: 0, server_id: DEFAULT_SERVER_ID }
    }

    /// Takes in a packet. The packets to send back to its sender.
    pub fn receive(&mut self, data: &[u8], from: &str, controller: &ControllerState, now_ms: u64)
        -> (r: Vec<Vec<u8>>)
        requires
            old(self).wf(),
        ensures
            final(self).wf(),
            r.deep_view() == answers(data@, controller.deep_view(), old(self).server_id),
            final(self).table.listed() == match registration(data@, controller.deep_view()) {
                Some(subscription) => entered(
                    old(self).table.listed(),
                    from@,
                    Client { last_seen_ms: now_ms, subscription },
                ),
                None => old(self).table.listed(),
            },
            final(self).counter == old(self).counter,
            final(self).server_id == old(self).server_id,
    {
        let action = handle_packet(data, controller, self.server_id);
        match action.subscribe {
            Some(subscription) => {
                self.table.insert(from, Client::new(subscription, now_ms));
            },
            None => {},
        }
        action.replies
    }

    /// What is sent at a tick, if anything, and to whom. Clients that have not
    /// been heard of for too long are dropped.
    pub fn tick(
        &mut self,
        controller: &ControllerState,
        analog: &PadAnalog,
        imu: &Option<[Real32; 6]>,
        timestamp: u64,
        now_ms: u64,
    ) -> (r: Option<Broadcast>)
        requires
            old(self).wf(),
        ensures
            final(self).wf(),
            final(self).server_id == old(self).server_id,
            final(self).table.listed() == still_active(old(self).table.listed(), now_ms),
            r is Some == controller.connected,
            final(self).counter == (if controller.connected {
                next_number(old(self).counter)
            } else {
                old(self).counter
            }),
            r matches Some(b) ==> {
                &&& b.packet@ == pad_packet(
                    0,
                    old(self).counter,
                    controller.deep_view(),
                    *analog,
                    *imu,
                    timestamp,
                    old(self).server_id,
                )
                &&& b.to.deep_view() == recipients(old(self).table.listed(), now_ms, 0)
            },
    {
        let sent = if slot_connected(controller, 0) {
            let packet = build_pad_data(
                0,
                self.counter,
                controller,
                analog,
                imu,
                timestamp,
                self.server_id,
            );
            self.counter = if self.counter == u32::MAX {
                0
            } else {
                self.counter + 1
            };
            Some(Broadcast { packet, to: self.table.select(now_ms, 0) })
        } else {
            None
        };
        self.table.expire(now_ms);
        sent
    }

    /// What is sent at a tick that happens now.
    pub fn tick_now(
        &mut self,
        controller: &ControllerState,
        analog: &PadAnalog,
        imu: &Option<[Real32; 6]>,
        now_ms: u64,
    ) -> (r: Option<Broadcast>)
        requires
            old(self).wf(),
        ensures
            final(self).wf(),
            final(self).server_id == old(self).server_id,
            final(self).table.listed() == still_active(old(self).table.listed(), now_ms),
            r is Some == controller.connected,
            final(self).counter == (if controller.connected {
                next_number(old(self).counter)
            } else {
                old(self).counter
            }),
            r matches Some(b) ==> b.to.deep_view() == recipients(
                old(self).table.listed(),
                now_ms,
                0,
            ) && exists|timestamp: u64|
                b.packet@ == #[trigger] pad_packet(
                    0,
                    old(self).counter,
                    controller.deep_view(),
                    *analog,
                    *imu,
                    timestamp,
                    old(self).server_id,
                ),
    {
        let timestamp = clock::now_micros();
        self.tick(controller, analog, imu, timestamp, now_ms)
    }
}

/// Whether a server runs, and how it is configured.
#[derive(Debug, PartialEq, Eq)]
pub struct DsuStatus {
    pub running: bool,
    pub enabled: bool,
    pub bind_address: String,
    pub port: u16,
    pub update_rate_hz: u32,
}

/// Whether a server runs.
#[derive(Debug)]
pub struct DsuManager {
    pub server: Option<DsuServer>,
}

impl DsuManager {
    /// No server runs.
    pub fn new() -> (r: Self)
        ensures
            r.server is None,
    {
        DsuManager { server: None }
    }

    /// Starts a server, unless one runs or its socket could not be bound.
    /// Whether one was started.
    pub fn start(&mut self, bound: bool) -> (r: bool)
        ensures
            r == (old(self).server is None && bound),
            !r ==> final(self).server == old(self).server,
            r ==> (final(self).server matches Some(s) && s.wf() && s.table.listed().len() == 0
                && s.counter == 0 && s.server_id == DEFAULT_SERVER_ID),
    {
        if self.server.is_some() {
            return false;
        }
        if !bound {
            return false;
        }
        self.server = Some(DsuServer::new());
        true
    }

    /// Stops the server. Whether one ran.
    pub fn stop(&mut self) -> (r: bool)
        ensures
            r == (old(self).server is Some),
            final(self).server is None,
    {
        if self.server.is_none() {
            return false;
        }
        self.server = None;
        true
    }

    /// Whether a server runs, and how it is configured.
    pub fn status(&self, config: &DsuConfig) -> (r: DsuStatus)
        ensures
            r.running == (self.server is Some),
            r.enabled == config.enabled,
            r.bind_address@ == config.bind_address@,
            r.port == config.port,
            r.update_rate_hz == config.update_rate_hz,
    {
        DsuStatus {
            running: self.server.is_some(),
            enabled: config.enabled,
            bind_address: config.bind_address.clone(),
            port: config.port,
            update_rate_hz: config.update_rate_hz,
        }
    }
}

/// The address that a server is bound to.
pub fn bind_text(config: &DsuConfig) -> (r: String)
    ensures
        r@ == config.bind_address@ + ":"@ + text::decimal(config.port as nat),
{
    let mut out = config.bind_address.clone();
    out.append(":");
    text::push_decimal(&mut out, config.port as u64);
    out
}

// ---------------------------------------------------------------------------
// Laws
// ---------------------------------------------------------------------------

/// A packet whose checksum is filled in passes the check, and is the same
/// outside its checksum.
pub proof fn law_sealed_packet_passes(p: Seq<u8>)
    requires
        p.len() >= 12,
    ensures
        crc_holds(sealed(p)),
        sealed(p).len() == p.len(),
        forall|j: int| 0 <= j < p.len() && !(8 <= j < 12) ==> #[trigger] sealed(p)[j] == p[j],
{
    let crc = crc32(blanked(p));
    numeric::law_le32_round_trip(crc);
    assert(blanked(sealed(p)) =~= blanked(p));
}

proof fn lemma_crc_bit_is_injective(a: u32, b: u32)
    requires
        crc_bit(a) == crc_bit(b),
    ensures
        a == b,
{
    assert((if a & 1 == 1 {
        (a >> 1) ^ 0xEDB8_8320u32
    } else {
        a >> 1
    }) == (if b & 1 == 1 {
        (b >> 1) ^ 0xEDB8_8320u32
    } else {
        b >> 1
    }) ==> a == b) by (bit_vector);
}

proof fn lemma_crc_bits_are_injective(a: u32, b: u32, n: nat)
    requires
        crc_bits(a, n) == crc_bits(b, n),
    ensures
        a == b,
    decreases n,
{
    if n > 0 {
        lemma_crc_bit_is_injective(crc_bits(a, (n - 1) as nat), crc_bits(b, (n - 1) as nat));
        lemma_crc_bits_are_injective(a, b, (n - 1) as nat);
    }
}

proof fn lemma_crc_byte_is_injective(c: u32, x: u8, d: u32, y: u8)
    requires
        crc_byte(c, x) == crc_byte(d, y),
    ensures
        c == d ==> x == y,
        x == y ==> c == d,
{
    lemma_crc_bits_are_injective(c ^ (x as u32), d ^ (y as u32), 8);
    assert(c ^ (x as u32) == c ^ (y as u32) ==> x == y) by (bit_vector);
    assert(c ^ (x as u32) == d ^ (x as u32) ==> c == d) by (bit_vector);
}

proof fn lemma_changed_byte_changes_the_remainder(p: Seq<u8>, i: int, b: u8)
    requires
        0 <= i < p.len(),
        b != p[i],
    ensures
        crc_remainder(p.update(i, b)) != crc_remainder(p),
    decreases p.len(),
{
    let q = p.update(i, b);
    let last = p.len() - 1;
    if crc_remainder(q) == crc_remainder(p) {
        lemma_crc_byte_is_injective(
            crc_remainder(p.drop_last()),
            p.last(),
            crc_remainder(q.drop_last()),
            q.last(),
        );
        if i == last {
            assert(q.drop_last() =~= p.drop_last());
        } else {
            assert(q.drop_last() =~= p.drop_last().update(i, b));
            lemma_changed_byte_changes_the_remainder(p.drop_last(), i, b);
        }
    }
}

/// A packet that passes the check fails it once any one of its bytes is
/// changed, in the checksum or outside of it.
pub proof fn law_changed_byte_is_detected(p: Seq<u8>, i: int, b: u8)
    requires
        crc_holds(p),
        0 <= i < p.len(),
        b != p[i],
    ensures
        !crc_holds(p.update(i, b)),
{
    let q = p.update(i, b);
    if 8 <= i < 12 {
        assert(blanked(q) =~= blanked(p));
    } else {
        assert(blanked(q) =~= blanked(p).update(i, b));
        lemma_changed_byte_changes_the_remainder(blanked(p), i, b);
        let r = crc_remainder(blanked(p));
        let s = crc_remainder(blanked(q));
        assert(r ^ 0xFFFF_FFFF == s ^ 0xFFFF_FFFF ==> r == s) by (bit_vector);
    }
}

/// What is too short for a checksum does not pass the check.
pub proof fn law_short_packet_fails(p: Seq<u8>)
    requires
        p.len() < 12,
    ensures
        !crc_holds(p),
{
}

proof fn lemma_header_is_kept(msg_type: u32, payload_len: u16, server_id: u32, rest: Seq<u8>)
    ensures
        header(msg_type, payload_len, server_id).len() == HEADER_LEN,
        sealed(header(msg_type, payload_len, server_id) + rest).len() == HEADER_LEN + rest.len(),
        sealed(header(msg_type, payload_len, server_id) + rest).subrange(6, 8) == numeric::le16(
            payload_len,
        ),
        crc_holds(sealed(header(msg_type, payload_len, server_id) + rest)),
{
    let h = header(msg_type, payload_len, server_id);
    let p = h + rest;
    law_sealed_packet_passes(p);
    assert(h.subrange(6, 8) =~= numeric::le16(payload_len));
    assert(sealed(p).subrange(6, 8) =~= h.subrange(6, 8));
}

proof fn lemma_slot_bytes_len(c: ControllerModel, slot: int)
    ensures
        slot_bytes(c, slot).len() == 10,
{
    assert(controller_mac(c).len() == 6);
}

/// The answer on the version is as long as its header says, and passes the
/// check.
pub proof fn law_version_packet_is_well_formed(server_id: u32)
    ensures
        version_packet(server_id).len() == HEADER_LEN + 2,
        version_packet(server_id).subrange(6, 8) == numeric::le16(2),
        crc_holds(version_packet(server_id)),
{
    lemma_header_is_kept(MSG_VERSION, 2, server_id, numeric::le16(PROTOCOL_VERSION));
}

/// The answer on a slot is as long as its header says, and passes the check.
pub proof fn law_port_packet_is_well_formed(slot: u8, c: ControllerModel, server_id: u32)
    ensures
        port_packet(slot, c, server_id).len() == HEADER_LEN + 12,
        port_packet(slot, c, server_id).subrange(6, 8) == numeric::le16(12),
        crc_holds(port_packet(slot, c, server_id)),
{
    let body = (seq![slot] + slot_bytes(c, slot as int)) + seq![0u8];
    lemma_slot_bytes_len(c, slot as int);
    lemma_header_is_kept(MSG_PORT_INFO, 12, server_id, body);
    assert(header(MSG_PORT_INFO, 12, server_id) + body =~= header(MSG_PORT_INFO, 12, server_id) + (
    seq![slot] + slot_bytes(c, slot as int)) + seq![0u8]);
}

/// The packet on the state of a controller is as long as its header says, and
/// passes the check.
pub proof fn law_pad_packet_is_well_formed(
    slot: u8,
    counter: u32,
    c: ControllerModel,
    analog: PadAnalog,
    imu: Option<[Real32; 6]>,
    timestamp: u64,
    server_id: u32,
)
    ensures
        pad_packet(slot, counter, c, analog, imu, timestamp, server_id).len() == HEADER_LEN + 80,
        pad_packet(slot, counter, c, analog, imu, timestamp, server_id).subrange(6, 8)
            == numeric::le16(80),
        crc_holds(pad_packet(slot, counter, c, analog, imu, timestamp, server_id)),
{
    let payload = pad_payload(slot, counter, c, analog, imu, timestamp);
    lemma_slot_bytes_len(c, slot as int);
    assert(motion_bytes(imu).len() == 24);
    assert(payload.len() == 80);
    lemma_header_is_kept(MSG_PAD_DATA, 80, server_id, payload);
}

/// A server answers nothing that a server has sent.
pub proof fn law_server_packets_are_not_answered(
    p: Seq<u8>,
    msg_type: u32,
    payload_len: u16,
    server_id: u32,
    rest: Seq<u8>,
    c: ControllerModel,
    own_id: u32,
)
    requires
        p == sealed(header(msg_type, payload_len, server_id) + rest),
    ensures
        !is_client_packet(p),
        answers(p, c, own_id).len() == 0,
        registration(p, c) is None,
{
    if p.len() >= 4 {
        assert(p.take(4)[3] == 0x53);
        assert(client_magic()[3] == 0x43);
    }
}

/// No request is answered for a slot that does not exist.
pub proof fn law_only_known_slots_are_described(slots: Seq<u8>, i: int)
    requires
        0 <= i < known_slots(slots).len(),
    ensures
        known_slots(slots)[i] < SLOT_COUNT,
    decreases slots.len(),
{
    if slots.len() > 0 {
        let rest = known_slots(slots.drop_last());
        if i < rest.len() {
            law_only_known_slots_are_described(slots.drop_last(), i);
        }
    }
}

/// A client is served from its subscription on until it has been silent for
/// five seconds, and then no more.
pub proof fn law_client_is_served_while_active(
    clients: Seq<ClientModel>,
    addr: Seq<char>,
    subscription: Subscription,
    since_ms: u64,
    now_ms: u64,
    slot: u8,
)
    requires
        distinct(clients),
        since_ms <= now_ms,
    ensures
        ({
            let client = Client { last_seen_ms: since_ms, subscription };
            recipients(entered(clients, addr, client), now_ms, slot).contains(addr) == (now_ms
                - since_ms < CLIENT_TIMEOUT_MS && client.wants(slot))
        }),
{
    let client = Client { last_seen_ms: since_ms, subscription };
    let all = entered(clients, addr, client);
    let p = place_of(clients, addr);
    lemma_place_of(clients, addr);
    assert(all[p] == (ClientModel { addr, client }));
    assert forall|i: int| 0 <= i < all.len() && i != p implies (#[trigger] all[i]).addr != addr by {
        assert(all[i] == clients[i]);
        if i > p && p < clients.len() {
            assert(clients[p].addr != clients[i].addr);
        }
    }
    lemma_served(all, now_ms, slot, p, addr);
}

proof fn lemma_served(all: Seq<ClientModel>, now_ms: u64, slot: u8, p: int, addr: Seq<char>)
    requires
        0 <= p,
        p < all.len() ==> all[p].addr == addr,
        forall|i: int| 0 <= i < all.len() && i != p ==> (#[trigger] all[i]).addr != addr,
    ensures
        recipients(all, now_ms, slot).contains(addr) == (p < all.len() && all[p].client.active(
            now_ms,
        ) && all[p].client.wants(slot)),
    decreases all.len(),
{
    if all.len() > 0 {
        let rest = all.drop_last();
        assert forall|i: int| 0 <= i < rest.len() && i != p implies (#[trigger] rest[i]).addr
            != addr by {
            assert(rest[i] == all[i]);
        }
        if p < rest.len() {
            assert(rest[p] == all[p]);
        }
        lemma_served(rest, now_ms, slot, p, addr);
        let before = recipients(rest, now_ms, slot);
        let after = recipients(all, now_ms, slot);
        if all.last().client.active(now_ms) && all.last().client.wants(slot) {
            assert(after == before.push(all.last().addr));
            if before.contains(addr) {
                let i = choose|i: int| 0 <= i < before.len() && before[i] == addr;
                assert(after[i] == addr);
            }
            assert(after[before.len() as int] == all.last().addr);
            if after.contains(addr) {
                let i = choose|i: int| 0 <= i < after.len() && after[i] == addr;
                if i < before.len() {
                    assert(before[i] == addr);
                }
            }
        }
    }
}

/// Dropping silent clients changes no one's service: what is sent at a time is
/// the same before and after.
pub proof fn law_expiry_changes_no_service(clients: Seq<ClientModel>, now_ms: u64, slot: u8)
    ensures
        recipients(still_active(clients, now_ms), now_ms, slot) == recipients(
            clients,
            now_ms,
            slot,
        ),
    decreases clients.len(),
{
    if clients.len() > 0 {
        let rest = clients.drop_last();
        law_expiry_changes_no_service(rest, now_ms, slot);
        if clients.last().client.active(now_ms) {
            let kept = still_active(rest, now_ms);
            assert(kept.push(clients.last()).drop_last() =~= kept);
        }
    }
}

/// A subscription by number is to that slot, where it exists.
pub proof fn law_subscription_by_number(data: Seq<u8>, c: ControllerModel)
    requires
        data.len() >= 28,
        data[20] % 2 == 1,
        data[21] < SLOT_COUNT,
    ensures
        asked_subscription(data, c) == Some(Subscription::Slot(data[21])),
{
}

proof fn lemma_digits_of_sum(a: Seq<char>, b: Seq<char>)
    ensures
        hex_digits(a + b) == hex_digits(a) + hex_digits(b),
    decreases b.len(),
{
    if b.len() == 0 {
        assert(a + b =~= a);
        assert(hex_digits(a) + hex_digits(b) =~= hex_digits(a));
    } else {
        assert((a + b).drop_last() =~= a + b.drop_last());
        lemma_digits_of_sum(a, b.drop_last());
        assert(hex_digits(a + b) =~= hex_digits(a) + hex_digits(b));
    }
}

proof fn lemma_digits_of_pair(b: u8)
    ensures
        hex_digits(text::hex_pair(b)) == text::hex_pair(b),
        hex_value(text::hex_pair(b)[0]) * 16 + hex_value(text::hex_pair(b)[1]) == b,
{
    reveal_with_fuel(hex_digits, 3);
    let p = text::hex_pair(b);
    assert(p.drop_last() =~= seq![p[0]]);
    assert(hex_digits(p) =~= p);
}

/// The digits of bytes that are written out with a separator are the digits of
/// the bytes.
proof fn lemma_digits_of_joined(data: Seq<u8>, sep: char)
    requires
        !is_hex(sep),
    ensures
        hex_digits(text::hex_joined(data, sep)).len() == 2 * data.len(),
        forall|i: int|
            0 <= i < data.len() ==> #[trigger] mac_byte(
                hex_digits(text::hex_joined(data, sep)),
                i,
            ) == data[i],
    decreases data.len(),
{
    reveal_with_fuel(hex_digits, 2);
    let d = hex_digits(text::hex_joined(data, sep));
    if data.len() > 0 {
        let last = text::hex_pair(data.last());
        lemma_digits_of_pair(data.last());
        if data.len() > 1 {
            let head = text::hex_joined(data.drop_last(), sep);
            lemma_digits_of_joined(data.drop_last(), sep);
            lemma_digits_of_sum(head.push(sep), last);
            assert(head.push(sep).drop_last() =~= head);
            assert(d =~= hex_digits(head) + last);
            assert forall|i: int| 0 <= i < data.len() implies #[trigger] mac_byte(d, i)
                == data[i] by {
                if i < data.len() - 1 {
                    assert(mac_byte(hex_digits(head), i) == data.drop_last()[i]);
                    assert(d[2 * i] == hex_digits(head)[2 * i]);
                    assert(d[2 * i + 1] == hex_digits(head)[2 * i + 1]);
                } else {
                    assert(d[2 * i] == last[0]);
                    assert(d[2 * i + 1] == last[1]);
                }
            }
        }
    }
}

/// An address of six bytes that is written out in hexadecimal, with colons or
/// anything else between the bytes that is no digit, is read back as it was.
pub proof fn law_address_round_trip(mac: Seq<u8>, sep: char)
    requires
        mac.len() == 6,
        !is_hex(sep),
    ensures
        mac_bytes(text::hex_joined(mac, sep)) == mac,
{
    lemma_digits_of_joined(mac, sep);
    assert(mac_bytes(text::hex_joined(mac, sep)) =~= mac);
}

proof fn lemma_header_bytes(msg_type: u32, payload_len: u16, server_id: u32, rest: Seq<u8>)
    ensures
        ({
            let p = sealed(header(msg_type, payload_len, server_id) + rest);
            &&& p.len() == 20 + rest.len()
            &&& p[0] == 0x44 && p[1] == 0x53 && p[2] == 0x55 && p[3] == 0x53
            &&& p[4] + 0x100 * p[5] == 1001
            &&& p[6] + 0x100 * p[7] == payload_len
            &&& p[12] + 0x100 * p[13] + 0x1_0000 * p[14] + 0x100_0000 * p[15] == server_id
            &&& p[16] + 0x100 * p[17] + 0x1_0000 * p[18] + 0x100_0000 * p[19] == msg_type
            &&& forall|i: int| 0 <= i < rest.len() ==> p[20 + i] == #[trigger] rest[i]
        }),
{
    let h = header(msg_type, payload_len, server_id);
    let q = h + rest;
    law_sealed_packet_passes(q);
    numeric::law_first_byte_is_the_lowest(payload_len, server_id, 0);
    numeric::law_first_byte_is_the_lowest(PROTOCOL_VERSION, msg_type, 0);
    let p = sealed(q);
    let m = server_magic();
    let v = numeric::le16(PROTOCOL_VERSION);
    let l = numeric::le16(payload_len);
    let s = numeric::le32(server_id);
    let t = numeric::le32(msg_type);
    assert(m[0] == 0x44 && m[1] == 0x53 && m[2] == 0x55 && m[3] == 0x53);
    assert(h.len() == 20);
    assert(h[0] == m[0] && h[1] == m[1] && h[2] == m[2] && h[3] == m[3]);
    assert(h[4] == v[0] && h[5] == v[1] && h[6] == l[0] && h[7] == l[1]);
    assert(h[12] == s[0] && h[13] == s[1] && h[14] == s[2] && h[15] == s[3]);
    assert(h[16] == t[0] && h[17] == t[1] && h[18] == t[2] && h[19] == t[3]);
    assert(forall|i: int| 0 <= i < 20 && !(8 <= i < 12) ==> p[i] == h[i]);
    assert forall|i: int| 0 <= i < rest.len() implies p[20 + i] == #[trigger] rest[i] by {
        assert(q[20 + i] == rest[i]);
        assert(sealed(q)[20 + i] == q[20 + i]);
    }
}

/// The checksum of a packet stands in its bytes 8 to 11, the lowest first, and
/// is that of the packet with zeros in their place.
pub proof fn law_checksum_stands_in_its_place(p: Seq<u8>)
    requires
        p.len() >= 12,
    ensures
        ({
            let s = sealed(p);
            let blank = Seq::new(
                p.len(),
                |i: int|
                    if 8 <= i < 12 {
                        0u8
                    } else {
                        p[i]
                    },
            );
            &&& s[8] + 0x100 * s[9] + 0x1_0000 * s[10] + 0x100_0000 * s[11] == crc32(blank)
            &&& crc_holds(p) == (p[8] + 0x100 * p[9] + 0x1_0000 * p[10] + 0x100_0000 * p[11]
                == crc32(blank))
        }),
{
    let blank = Seq::new(
        p.len(),
        |i: int|
            if 8 <= i < 12 {
                0u8
            } else {
                p[i]
            },
    );
    assert(blanked(p) =~= blank);
    numeric::law_first_byte_is_the_lowest(0, crc32(blank), 0);
}

/// Every packet of the server starts with its four letters, the version 1001,
/// the length of what follows the header, the identifier of the server and the
/// type of the message: 0x100000 for the version, 0x100001 for a slot, 0x100002
/// for a controller.
pub proof fn law_packet_headers(
    slot: u8,
    counter: u32,
    c: ControllerModel,
    analog: PadAnalog,
    imu: Option<[Real32; 6]>,
    timestamp: u64,
    server_id: u32,
)
    ensures
        ({
            let starts = |p: Seq<u8>, kind: int|
                p[0] == 0x44 && p[1] == 0x53 && p[2] == 0x55 && p[3] == 0x53 && p[4] + 0x100 * p[5]
                    == 1001 && p[6] + 0x100 * p[7] == p.len() - 20 && p[12] + 0x100 * p[13]
                    + 0x1_0000 * p[14] + 0x100_0000 * p[15] == server_id && p[16] + 0x100 * p[17]
                    + 0x1_0000 * p[18] + 0x100_0000 * p[19] == kind;
            let version = version_packet(server_id);
            &&& starts(version, 0x100000)
            &&& version.len() == 22 && version[20] + 0x100 * version[21] == 1001
            &&& starts(port_packet(slot, c, server_id), 0x100001)
            &&& starts(
                pad_packet(slot, counter, c, analog, imu, timestamp, server_id),
                0x100002,
            )
        }),
{
    let v = numeric::le16(PROTOCOL_VERSION);
    numeric::law_first_byte_is_the_lowest(PROTOCOL_VERSION, 0, 0);
    lemma_header_bytes(MSG_VERSION, 2, server_id, v);
    let version = version_packet(server_id);
    assert(version[20] == v[0] && version[21] == v[1]);
    let body = (seq![slot] + slot_bytes(c, slot as int)) + seq![0u8];
    lemma_slot_bytes_len(c, slot as int);
    lemma_header_bytes(MSG_PORT_INFO, 12, server_id, body);
    assert(header(MSG_PORT_INFO, 12, server_id) + body =~= header(MSG_PORT_INFO, 12, server_id) + (
    seq![slot] + slot_bytes(c, slot as int)) + seq![0u8]);
    let payload = pad_payload(slot, counter, c, analog, imu, timestamp);
    assert(motion_bytes(imu).len() == 24);
    assert(payload.len() == 80);
    lemma_header_bytes(MSG_PAD_DATA, 80, server_id, payload);
}

/// What a packet says of a slot, from byte 20 on: the slot, 2 for a controller
/// that is there, 2 for one with a full gyroscope, 1 for USB or 2 for
/// Bluetooth, the six bytes of its address, and its battery. Only the first
/// slot can hold a controller; for any other slot, and for a controller that is
/// not connected, all of these but the slot are zero.
pub proof fn law_slot_bytes_on_the_wire(slot: u8, c: ControllerModel, server_id: u32)
    ensures
        ({
            let p = port_packet(slot, c, server_id);
            let there = slot == 0 && c.connected;
            let mac = controller_mac(c);
            &&& p.len() == 32
            &&& p[20] == slot
            &&& p[21] == (if there { 2int } else { 0 })
            &&& p[22] == (if there { 2int } else { 0 })
            &&& there ==> p[23] == (if c.connection_type == ConnectionType::Usb { 1int } else { 2 })
            &&& there ==> forall|i: int| 0 <= i < 6 ==> p[24 + i] == mac[i]
            &&& there ==> p[30] == battery_code(c.battery_percent, c.charging)
            &&& !there ==> forall|i: int| 23 <= i < 31 ==> p[i] == 0
            &&& p[31] == 0
        }),
{
    let body = (seq![slot] + slot_bytes(c, slot as int)) + seq![0u8];
    let b = slot_bytes(c, slot as int);
    lemma_slot_bytes_len(c, slot as int);
    lemma_header_bytes(MSG_PORT_INFO, 12, server_id, body);
    assert(header(MSG_PORT_INFO, 12, server_id) + body =~= header(MSG_PORT_INFO, 12, server_id) + (
    seq![slot] + slot_bytes(c, slot as int)) + seq![0u8]);
    let p = port_packet(slot, c, server_id);
    assert(p[20] == body[0] && body[0] == slot);
    assert(p[31] == body[11] && body[11] == 0);
    assert forall|i: int| 0 <= i < 10 implies p[21 + i] == #[trigger] b[i] by {
        assert(body[1 + i] == b[i]);
        assert(p[20 + (1 + i)] == body[1 + i]);
    }
    assert(p[21] == b[0] && p[22] == b[1] && p[23] == b[2] && p[30] == b[9]);
    if slot == 0 && c.connected {
        let mac = controller_mac(c);
        assert(mac.len() == 6);
        assert forall|i: int| 0 <= i < 6 implies p[24 + i] == mac[i] by {
            assert(b[3 + i] == mac[i]);
        }
    } else {
        assert forall|i: int| 23 <= i < 31 implies p[i] == 0 by {
            assert(b[i - 21] == 0);
        }
    }
}

proof fn lemma_payload_bytes(
    slot: u8,
    counter: u32,
    c: ControllerModel,
    analog: PadAnalog,
    imu: Option<[Real32; 6]>,
    timestamp: u64,
)
    ensures
        ({
            let q = pad_payload(slot, counter, c, analog, imu, timestamp);
            let n = numeric::le32(counter);
            let t = numeric::le64(timestamp);
            &&& q.len() == 80
            &&& q[0] == slot
            &&& forall|i: int| 0 <= i < 10 ==> q[1 + i] == #[trigger] slot_bytes(c, slot as int)[i]
            &&& q[11] == (if c.connected { 1int } else { 0 })
            &&& q[12] == n[0] && q[13] == n[1] && q[14] == n[2] && q[15] == n[3]
            &&& q[16] == button_byte_1(c.buttons) as u8
            &&& q[17] == button_byte_2(c.buttons) as u8
            &&& q[18] == (if c.buttons.home { 1int } else { 0 })
            &&& q[19] == 0
            &&& forall|i: int| 0 <= i < 4 ==> q[20 + i] == #[trigger] analog.sticks@[i]
            &&& forall|i: int|
                0 <= i < 12 ==> q[24 + i] == #[trigger] analog_bytes(
                    c.buttons,
                    analog.left_trigger,
                    analog.right_trigger,
                )[i]
            &&& forall|i: int| 36 <= i < 48 ==> q[i] == 0
            &&& forall|i: int| 0 <= i < 8 ==> q[48 + i] == #[trigger] t[i]
            &&& forall|i: int| 0 <= i < 24 ==> q[56 + i] == #[trigger] motion_bytes(imu)[i]
        }),
{
    lemma_slot_bytes_len(c, slot as int);
    numeric::law_first_byte_is_the_lowest(0, counter, timestamp);
    assert(motion_bytes(imu).len() == 24);
    assert(analog.sticks@.len() == 4);
}

/// What a packet says of a controller: the slot as in a packet on the slot,
/// whether it is connected, the number of the packet, the buttons, the sticks
/// in the order in which they are given, the touch pad at rest, and the time.
pub proof fn law_pad_bytes_on_the_wire(
    slot: u8,
    counter: u32,
    c: ControllerModel,
    analog: PadAnalog,
    imu: Option<[Real32; 6]>,
    timestamp: u64,
    server_id: u32,
)
    ensures
        ({
            let p = pad_packet(slot, counter, c, analog, imu, timestamp, server_id);
            let port = port_packet(slot, c, server_id);
            &&& p.len() == 100
            &&& forall|i: int| 20 <= i < 31 ==> p[i] == port[i]
            &&& p[31] == (if c.connected { 1int } else { 0 })
            &&& p[32] + 0x100 * p[33] + 0x1_0000 * p[34] + 0x100_0000 * p[35] == counter
            &&& p[38] == (if c.buttons.home { 1int } else { 0 })
            &&& p[39] == 0
            &&& forall|i: int| 0 <= i < 4 ==> p[40 + i] == analog.sticks@[i]
            &&& forall|i: int| 56 <= i < 68 ==> p[i] == 0
            &&& p[68] + 0x100 * p[69] + 0x1_0000 * p[70] + 0x100_0000 * p[71] + 0x1_0000_0000
                * p[72] + 0x100_0000_0000 * p[73] + 0x1_0000_0000_0000 * p[74]
                + 0x100_0000_0000_0000 * p[75] == timestamp
        }),
{
    let q = pad_payload(slot, counter, c, analog, imu, timestamp);
    let p = pad_packet(slot, counter, c, analog, imu, timestamp, server_id);
    lemma_payload_bytes(slot, counter, c, analog, imu, timestamp);
    lemma_header_bytes(MSG_PAD_DATA, 80, server_id, q);
    assert(forall|i: int| 0 <= i < 80 ==> p[20 + i] == q[i]);
    numeric::law_first_byte_is_the_lowest(0, counter, timestamp);
    let n = numeric::le32(counter);
    let t = numeric::le64(timestamp);
    assert(p[32] == q[12] && p[33] == q[13] && p[34] == q[14] && p[35] == q[15]);
    assert(p[68] == t[0] && p[69] == t[1] && p[70] == t[2] && p[71] == t[3]);
    assert(p[72] == t[4] && p[73] == t[5] && p[74] == t[6] && p[75] == t[7]);
    assert(p[31] == q[11] && p[38] == q[18] && p[39] == q[19]);
    assert forall|i: int| 0 <= i < 4 implies p[40 + i] == analog.sticks@[i] by {
        assert(p[20 + (20 + i)] == q[20 + i]);
    }
    assert forall|i: int| 56 <= i < 68 implies p[i] == 0 by {
        assert(p[20 + (i - 20)] == q[i - 20]);
    }
    let body = (seq![slot] + slot_bytes(c, slot as int)) + seq![0u8];
    lemma_slot_bytes_len(c, slot as int);
    lemma_header_bytes(MSG_PORT_INFO, 12, server_id, body);
    assert(header(MSG_PORT_INFO, 12, server_id) + body =~= header(MSG_PORT_INFO, 12, server_id) + (
    seq![slot] + slot_bytes(c, slot as int)) + seq![0u8]);
    let port = port_packet(slot, c, server_id);
    assert forall|i: int| 20 <= i < 31 implies p[i] == port[i] by {
        assert(p[20 + (i - 20)] == q[i - 20]);
        assert(port[20 + (i - 20)] == body[i - 20]);
        if i == 20 {
            assert(q[0] == slot && body[0] == slot);
        } else {
            let k = i - 21;
            assert(q[1 + k] == slot_bytes(c, slot as int)[k]);
            assert(body[1 + k] == slot_bytes(c, slot as int)[k]);
        }
    }
}

/// Each button has a bit of its own on the wire, which is set exactly if it is
/// held: minus, left stick, right stick, plus, up, right, down and left from the
/// lowest bit of byte 36 on, and ZL, ZR, L, R, X, A, B and Y from the lowest bit
/// of byte 37 on.
pub proof fn law_buttons_on_the_wire(
    slot: u8,
    counter: u32,
    c: ControllerModel,
    analog: PadAnalog,
    imu: Option<[Real32; 6]>,
    timestamp: u64,
    server_id: u32,
)
    ensures
        ({
            let p = pad_packet(slot, counter, c, analog, imu, timestamp, server_id);
            let b = c.buttons;
            &&& button_byte_1(b) == p[36]
            &&& button_byte_2(b) == p[37]
            &&& (p[36] % 2 == 1) == b.minus
            &&& (p[36] / 2 % 2 == 1) == b.stick_l
            &&& (p[36] / 4 % 2 == 1) == b.stick_r
            &&& (p[36] / 8 % 2 == 1) == b.plus
            &&& (p[36] / 16 % 2 == 1) == b.dpad_up
            &&& (p[36] / 32 % 2 == 1) == b.dpad_right
            &&& (p[36] / 64 % 2 == 1) == b.dpad_down
            &&& (p[36] / 128 % 2 == 1) == b.dpad_left
            &&& (p[37] % 2 == 1) == b.zl
            &&& (p[37] / 2 % 2 == 1) == b.zr
            &&& (p[37] / 4 % 2 == 1) == b.l
            &&& (p[37] / 8 % 2 == 1) == b.r
            &&& (p[37] / 16 % 2 == 1) == b.x
            &&& (p[37] / 32 % 2 == 1) == b.a
            &&& (p[37] / 64 % 2 == 1) == b.b
            &&& (p[37] / 128 % 2 == 1) == b.y
        }),
{
    lemma_button_bytes(slot, counter, c, analog, imu, timestamp, server_id);
    lemma_bits_of_first(c.buttons);
    lemma_bits_of_second(c.buttons);
}

proof fn lemma_button_bytes(
    slot: u8,
    counter: u32,
    c: ControllerModel,
    analog: PadAnalog,
    imu: Option<[Real32; 6]>,
    timestamp: u64,
    server_id: u32,
)
    ensures
        ({
            let p = pad_packet(slot, counter, c, analog, imu, timestamp, server_id);
            button_byte_1(c.buttons) == p[36] && button_byte_2(c.buttons) == p[37]
        }),
{
    let q = pad_payload(slot, counter, c, analog, imu, timestamp);
    lemma_payload_bytes(slot, counter, c, analog, imu, timestamp);
    lemma_header_bytes(MSG_PAD_DATA, 80, server_id, q);
    lemma_bits_of_first(c.buttons);
    lemma_bits_of_second(c.buttons);
    let p = pad_packet(slot, counter, c, analog, imu, timestamp, server_id);
    assert(p[36] == q[16] && p[37] == q[17]);
}

proof fn lemma_bits_of_first(b: ButtonState)
    ensures
        ({
            let x = button_byte_1(b);
            &&& 0 <= x < 256
            &&& (x % 2 == 1) == b.minus
            &&& (x / 2 % 2 == 1) == b.stick_l
            &&& (x / 4 % 2 == 1) == b.stick_r
            &&& (x / 8 % 2 == 1) == b.plus
            &&& (x / 16 % 2 == 1) == b.dpad_up
            &&& (x / 32 % 2 == 1) == b.dpad_right
            &&& (x / 64 % 2 == 1) == b.dpad_down
            &&& (x / 128 % 2 == 1) == b.dpad_left
        }),
{
    lemma_nibble(b.dpad_left, b.dpad_down, b.dpad_right, b.dpad_up);
    lemma_nibble(b.plus, b.stick_r, b.stick_l, b.minus);
    lemma_halves(
        nibble_of(b.dpad_left, b.dpad_down, b.dpad_right, b.dpad_up),
        nibble_of(b.plus, b.stick_r, b.stick_l, b.minus),
    );
}

proof fn lemma_bits_of_second(b: ButtonState)
    ensures
        ({
            let x = button_byte_2(b);
            &&& 0 <= x < 256
            &&& (x % 2 == 1) == b.zl
            &&& (x / 2 % 2 == 1) == b.zr
            &&& (x / 4 % 2 == 1) == b.l
            &&& (x / 8 % 2 == 1) == b.r
            &&& (x / 16 % 2 == 1) == b.x
            &&& (x / 32 % 2 == 1) == b.a
            &&& (x / 64 % 2 == 1) == b.b
            &&& (x / 128 % 2 == 1) == b.y
        }),
{
    lemma_nibble(b.y, b.b, b.a, b.x);
    lemma_nibble(b.r, b.l, b.zr, b.zl);
    lemma_halves(nibble_of(b.y, b.b, b.a, b.x), nibble_of(b.r, b.l, b.zr, b.zl));
}

/// The bits of a byte are those of its two halves.
proof fn lemma_halves(high: int, low: int)
    requires
        0 <= high < 16,
        0 <= low < 16,
    ensures
        ({
            let x = 16 * high + low;
            &&& 0 <= x < 256
            &&& x % 2 == low % 2
            &&& x / 2 % 2 == low / 2 % 2
            &&& x / 4 % 2 == low / 4 % 2
            &&& x / 8 % 2 == low / 8 % 2
            &&& x / 16 % 2 == high % 2
            &&& x / 32 % 2 == high / 2 % 2
            &&& x / 64 % 2 == high / 4 % 2
            &&& x / 128 % 2 == high / 8 % 2
        }),
{
}

proof fn lemma_nibble(a: bool, b: bool, c: bool, d: bool)
    ensures
        0 <= nibble_of(a, b, c, d) < 16,
        (nibble_of(a, b, c, d) / 8 % 2 == 1) == a,
        (nibble_of(a, b, c, d) / 4 % 2 == 1) == b,
        (nibble_of(a, b, c, d) / 2 % 2 == 1) == c,
        (nibble_of(a, b, c, d) % 2 == 1) == d,
{
    reveal(nibble_of);
}

/// The pressure of each button stands in a byte of its own: all or nothing,
/// from byte 44 on left, down, right, up, Y, B, A, X, R and L, and then the
/// right and the left trigger.
pub proof fn law_pressures_on_the_wire(
    slot: u8,
    counter: u32,
    c: ControllerModel,
    analog: PadAnalog,
    imu: Option<[Real32; 6]>,
    timestamp: u64,
    server_id: u32,
)
    ensures
        ({
            let p = pad_packet(slot, counter, c, analog, imu, timestamp, server_id);
            let b = c.buttons;
            &&& p[44] == (if b.dpad_left { 255int } else { 0 })
            &&& p[45] == (if b.dpad_down { 255int } else { 0 })
            &&& p[46] == (if b.dpad_right { 255int } else { 0 })
            &&& p[47] == (if b.dpad_up { 255int } else { 0 })
            &&& p[48] == (if b.y { 255int } else { 0 })
            &&& p[49] == (if b.b { 255int } else { 0 })
            &&& p[50] == (if b.a { 255int } else { 0 })
            &&& p[51] == (if b.x { 255int } else { 0 })
            &&& p[52] == (if b.r { 255int } else { 0 })
            &&& p[53] == (if b.l { 255int } else { 0 })
            &&& p[54] == analog.right_trigger
            &&& p[55] == analog.left_trigger
        }),
{
    let q = pad_payload(slot, counter, c, analog, imu, timestamp);
    let p = pad_packet(slot, counter, c, analog, imu, timestamp, server_id);
    lemma_payload_bytes(slot, counter, c, analog, imu, timestamp);
    lemma_header_bytes(MSG_PAD_DATA, 80, server_id, q);
    let a = analog_bytes(c.buttons, analog.left_trigger, analog.right_trigger);
    assert forall|i: int| 0 <= i < 12 implies p[44 + i] == #[trigger] a[i] by {
        assert(q[24 + i] == a[i]);
        assert(p[20 + (24 + i)] == q[24 + i]);
    }
    assert(p[44] == a[0] && p[45] == a[1] && p[46] == a[2] && p[47] == a[3]);
    assert(p[48] == a[4] && p[49] == a[5] && p[50] == a[6] && p[51] == a[7]);
    assert(p[52] == a[8] && p[53] == a[9] && p[54] == a[10] && p[55] == a[11]);
}

/// The motion stands at the end of a packet: three accelerations and three
/// rotations in the order in which they are given, four bytes each, the lowest
/// first; zeros where there is no reading.
pub proof fn law_motion_on_the_wire(
    slot: u8,
    counter: u32,
    c: ControllerModel,
    analog: PadAnalog,
    imu: Option<[Real32; 6]>,
    timestamp: u64,
    server_id: u32,
    k: int,
)
    requires
        0 <= k < 6,
    ensures
        ({
            let p = pad_packet(slot, counter, c, analog, imu, timestamp, server_id);
            let at = 76 + 4 * k;
            p[at] + 0x100 * p[at + 1] + 0x1_0000 * p[at + 2] + 0x100_0000 * p[at + 3] == (
            match imu {
                Some(m) => m@[k].bits as int,
                None => 0,
            })
        }),
{
    let q = pad_payload(slot, counter, c, analog, imu, timestamp);
    let p = pad_packet(slot, counter, c, analog, imu, timestamp, server_id);
    lemma_payload_bytes(slot, counter, c, analog, imu, timestamp);
    lemma_header_bytes(MSG_PAD_DATA, 80, server_id, q);
    let w = motion_bytes(imu);
    assert forall|i: int| 0 <= i < 24 implies p[76 + i] == #[trigger] w[i] by {
        assert(q[56 + i] == w[i]);
        assert(p[20 + (56 + i)] == q[56 + i]);
    }
    assert(p[76 + 4 * k] == w[4 * k] && p[76 + (4 * k + 1)] == w[4 * k + 1]);
    assert(p[76 + (4 * k + 2)] == w[4 * k + 2] && p[76 + (4 * k + 3)] == w[4 * k + 3]);
    match imu {
        Some(m) => {
            numeric::law_first_byte_is_the_lowest(0, m@[k].bits, 0);
            lemma_motion_bytes(m, k);
        },
        None => {},
    }
}

proof fn lemma_motion_bytes(m: [Real32; 6], k: int)
    requires
        0 <= k < 6,
    ensures
        ({
            let w = motion_bytes(Some(m));
            let e = numeric::le32(m@[k].bits);
            w[4 * k] == e[0] && w[4 * k + 1] == e[1] && w[4 * k + 2] == e[2] && w[4 * k + 3] == e[3]
        }),
{
    let a = numeric::le32(m@[0].bits);
    let b = numeric::le32(m@[1].bits);
    let c = numeric::le32(m@[2].bits);
    let d = numeric::le32(m@[3].bits);
    let e = numeric::le32(m@[4].bits);
    let f = numeric::le32(m@[5].bits);
    let w = motion_bytes(Some(m));
    assert(w =~= a + b + c + d + e + f);
    if k == 0 {
        assert(w[0] == a[0] && w[1] == a[1] && w[2] == a[2] && w[3] == a[3]);
    } else if k == 1 {
        assert(w[4] == b[0] && w[5] == b[1] && w[6] == b[2] && w[7] == b[3]);
    } else if k == 2 {
        assert(w[8] == c[0] && w[9] == c[1] && w[10] == c[2] && w[11] == c[3]);
    } else if k == 3 {
        assert(w[12] == d[0] && w[13] == d[1] && w[14] == d[2] && w[15] == d[3]);
    } else if k == 4 {
        assert(w[16] == e[0] && w[17] == e[1] && w[18] == e[2] && w[19] == e[3]);
    } else {
        assert(w[20] == f[0] && w[21] == f[1] && w[22] == f[2] && w[23] == f[3]);
    }
}

/// A battery that is charging is full from 99 percent on. One that is not goes
/// by fifths, from 1 for the lowest to 5 for the highest.
pub proof fn law_battery_on_the_wire(percent: u8)
    ensures
        battery_code(percent, true) == (if percent >= 99 { 0xEFint } else { 0xEE }),
        percent < 100 ==> battery_code(percent, false) == percent / 20 + 1,
        percent >= 100 ==> battery_code(percent, false) == 5,
{
}

/// A packet comes from a client if it has a header, starts with the letters of
/// a client and carries its checksum. The type of the message stands in bytes
/// 16 to 19.
pub proof fn law_packets_of_clients(data: Seq<u8>)
    ensures
        is_client_packet(data) == (data.len() >= 20 && data[0] == 0x44 && data[1] == 0x53 && data[2]
            == 0x55 && data[3] == 0x43 && crc_holds(data)),
        data.len() >= 20 ==> message_type(data) == data[16] + 0x100 * data[17] + 0x1_0000 * data[18]
            + 0x100_0000 * data[19],
{
    let m = client_magic();
    assert(m[0] == 0x44 && m[1] == 0x53 && m[2] == 0x55 && m[3] == 0x43 && m.len() == 4);
    if data.len() >= 20 {
        let t = data.take(4);
        assert(t[0] == data[0] && t[1] == data[1] && t[2] == data[2] && t[3] == data[3]);
        if data[0] == 0x44 && data[1] == 0x53 && data[2] == 0x55 && data[3] == 0x43 {
            assert(t =~= m);
        }
    }
}

/// Each kind of request has its own effect: a question for the version gets
/// one answer, a question for slots one for each of them, and a subscription
/// none. Only a subscription subscribes.
pub proof fn law_requests_by_type(data: Seq<u8>, c: ControllerModel, server_id: u32)
    requires
        is_client_packet(data),
    ensures
        ({
            let kind = data[16] + 0x100 * data[17] + 0x1_0000 * data[18] + 0x100_0000 * data[19];
            let a = answers(data, c, server_id);
            let slots = asked_slots(data);
            &&& kind == 0x100000 ==> a.len() == 1 && a[0] == version_packet(server_id)
            &&& kind == 0x100001 ==> a.len() == slots.len()
            &&& kind == 0x100001 ==> forall|i: int|
                0 <= i < a.len() ==> a[i] == port_packet(slots[i], c, server_id)
            &&& kind != 0x100000 && kind != 0x100001 ==> a.len() == 0
            &&& kind != 0x100002 ==> registration(data, c) is None
            &&& kind == 0x100002 ==> registration(data, c) == asked_subscription(data, c)
        }),
{
}

/// A question for slots that names none is about all four of them; one that
/// names some is about those of the four that it names, in that order, as far
/// as its count goes.
pub proof fn law_slots_that_are_asked_about(data: Seq<u8>, slot: u8)
    requires
        data.len() >= 24,
    ensures
        ({
            let count = data[20] + 0x100 * data[21] + 0x1_0000 * data[22] + 0x100_0000 * data[23];
            let listed = data.skip(24);
            let all = asked_slots(data);
            &&& count == 0 || data.len() == 24 ==> all == seq![0u8, 1, 2, 3]
            &&& 0 < count < 0x8000_0000 && count <= listed.len() ==> all.contains(slot) == (slot < 4
                && listed.take(count).contains(slot))
            &&& count > 0 && listed.len() > 0 && (count >= 0x8000_0000 || count >= listed.len())
                ==> all.contains(slot) == (slot < 4 && listed.contains(slot))
        }),
{
    let count = data[20] + 0x100 * data[21] + 0x1_0000 * data[22] + 0x100_0000 * data[23];
    let listed = data.skip(24);
    lemma_known_slots(listed, slot);
    if 0 < count <= listed.len() {
        lemma_known_slots(listed.take(count), slot);
        if count == listed.len() {
            assert(listed.take(count) =~= listed);
        }
    }
}

proof fn lemma_known_slots(slots: Seq<u8>, slot: u8)
    ensures
        known_slots(slots).contains(slot) == (slot < 4 && slots.contains(slot)),
    decreases slots.len(),
{
    if slots.len() > 0 {
        let rest = slots.drop_last();
        lemma_known_slots(rest, slot);
        let before = known_slots(rest);
        let after = known_slots(slots);
        assert(slots =~= rest.push(slots.last()));
        if slots.last() == slot {
            assert(slots[slots.len() - 1] == slot);
            if slot < 4 {
                assert(after[before.len() as int] == slot);
            }
        }
        if before.contains(slot) {
            let i = choose|i: int| 0 <= i < before.len() && before[i] == slot;
            assert(after[i] == slot);
        }
        if rest.contains(slot) {
            let i = choose|i: int| 0 <= i < rest.len() && rest[i] == slot;
            assert(slots[i] == slot);
        }
        if after.contains(slot) {
            let i = choose|i: int| 0 <= i < after.len() && after[i] == slot;
            if i < before.len() {
                assert(before[i] == slot);
            }
        }
        if slots.contains(slot) && slots.last() != slot {
            let i = choose|i: int| 0 <= i < slots.len() && slots[i] == slot;
            assert(rest[i] == slot);
        }
    }
}

/// Slots are described in the order in which they are asked about.
pub proof fn law_slots_keep_their_order(slots: Seq<u8>, next: u8)
    ensures
        next < 4 ==> known_slots(slots.push(next)) == known_slots(slots).push(next),
        next >= 4 ==> known_slots(slots.push(next)) == known_slots(slots),
        known_slots(Seq::empty()).len() == 0,
{
    assert(slots.push(next).drop_last() =~= slots);
}

/// A subscription goes by the two lowest bits of byte 20: by the number in byte
/// 21, or else by the address in bytes 22 to 27, which is that of the first
/// slot, or else to all slots. One that is too short is none.
pub proof fn law_subscriptions(data: Seq<u8>, c: ControllerModel)
    ensures
        data.len() < 28 ==> asked_subscription(data, c) is None,
        data.len() >= 28 ==> ({
            let s = asked_subscription(data, c);
            let by_number = data[20] % 2 == 1 && data[21] < 4;
            let own = forall|i: int|
                0 <= i < 6 ==> data[22 + i] == #[trigger] controller_mac(c)[i];
            let none = forall|i: int| 0 <= i < 6 ==> #[trigger] data[22 + i] == 0;
            let by_address = data[20] / 2 % 2 == 1 && (if c.connected { own } else { none });
            &&& by_number ==> s == Some(Subscription::Slot(data[21]))
            &&& !by_number && by_address ==> s == Some(Subscription::Slot(0))
            &&& !by_number && !by_address ==> s == Some(Subscription::All)
        }),
{
    if data.len() >= 28 {
        let part = data.subrange(22, 28);
        let mac = controller_mac(c);
        assert(mac.len() == 6);
        assert(forall|i: int| 0 <= i < 6 ==> part[i] == #[trigger] data[22 + i]);
        let zeros = seq![0u8, 0, 0, 0, 0, 0];
        if forall|i: int| 0 <= i < 6 ==> data[22 + i] == #[trigger] mac[i] {
            assert forall|i: int| 0 <= i < 6 implies part[i] == mac[i] by {
                assert(data[22 + i] == mac[i]);
            }
            assert(part =~= mac);
        }
        if forall|i: int| 0 <= i < 6 ==> #[trigger] data[22 + i] == 0 {
            assert forall|i: int| 0 <= i < 6 implies part[i] == zeros[i] by {
                assert(data[22 + i] == 0);
            }
            assert(part =~= zeros);
        }
        if part == mac {
            assert forall|i: int| 0 <= i < 6 implies data[22 + i] == #[trigger] mac[i] by {
                assert(part[i] == mac[i]);
            }
        }
        if part == zeros {
            assert forall|i: int| 0 <= i < 6 implies #[trigger] data[22 + i] == 0 by {
                assert(part[i] == zeros[i]);
            }
        }
    }
}

/// A client is served for five seconds after it was last heard of, and hears
/// of every slot or of the one that it asked for.
pub proof fn law_clients_are_served_for_five_seconds(
    since_ms: u64,
    later_ms: u64,
    slot: u8,
    other: u8,
)
    requires
        since_ms <= later_ms,
    ensures
        ({
            let all = Client { last_seen_ms: since_ms, subscription: Subscription::All };
            let one = Client { last_seen_ms: since_ms, subscription: Subscription::Slot(slot) };
            &&& all.active(later_ms) == (later_ms - since_ms < 5000)
            &&& one.active(later_ms) == (later_ms - since_ms < 5000)
            &&& all.wants(other)
            &&& one.wants(other) == (other == slot)
        }),
{
}

/// Entering a client leaves every other client as it was, and puts the new
/// one in the place of an old one with the same address, or at the end.
pub proof fn law_entering_keeps_the_others(
    clients: Seq<ClientModel>,
    addr: Seq<char>,
    client: Client,
    i: int,
)
    requires
        distinct(clients),
        0 <= i < clients.len(),
    ensures
        ({
            let all = entered(clients, addr, client);
            &&& clients[i].addr != addr ==> all[i] == clients[i]
            &&& clients[i].addr == addr ==> all[i].client == client && all.len() == clients.len()
            &&& all[i].addr == clients[i].addr
            &&& distinct(all)
            &&& all.len() <= clients.len() + 1
            &&& all.len() > clients.len() ==> all.last() == (ClientModel { addr, client })
        }),
{
    lemma_place_of(clients, addr);
    let p = place_of(clients, addr);
    let all = entered(clients, addr, client);
    if clients[i].addr == addr && i != p {
        if i < p {
            assert(clients[i].addr != addr);
        } else {
            assert(clients[p].addr != clients[i].addr);
        }
    }
    assert forall|a: int, b: int| 0 <= a < b < all.len() implies #[trigger] all[a].addr
        != #[trigger] all[b].addr by {
        if p < clients.len() {
            assert(all[a].addr == clients[a].addr && all[b].addr == clients[b].addr);
        } else if b < clients.len() {
            assert(clients[a].addr != clients[b].addr);
        } else {
            assert(clients[a].addr != addr);
        }
    }
}

/// The numbers of packets go up by one, and after the highest start at zero.
pub proof fn law_packet_numbers(n: u32)
    ensures
        n < u32::MAX ==> next_number(n) == n + 1,
        n == u32::MAX ==> next_number(n) == 0,
{
}

/// A demonstration packet tells of a controller in the first slot whose sticks
/// rest in the middle and whose only acceleration is one g along the third
/// axis.
pub proof fn law_demonstration_packet(counter: u32, timestamp: u64)
    ensures
        ({
            let q = demo_payload(counter, timestamp);
            &&& q.len() == 80
            &&& q[0] == 0 && q[1] == 2 && q[2] == 2 && q[3] == 2 && q[11] == 1
            &&& forall|i: int| 4 <= i < 10 ==> q[i] == i - 3
            &&& q[10] == 8
            &&& q[12] + 0x100 * q[13] + 0x1_0000 * q[14] + 0x100_0000 * q[15] == counter
            &&& q[16] == 128 && q[17] == 128 && q[18] == 128 && q[19] == 128
            &&& forall|i: int| 20 <= i < 48 ==> q[i] == 0
            &&& q[66] == 0x80 && q[67] == 0x3F
            &&& forall|i: int| 56 <= i < 80 && i != 66 && i != 67 ==> q[i] == 0
        }),
{
    numeric::law_first_byte_is_the_lowest(0, counter, timestamp);
    numeric::law_first_byte_is_the_lowest(0, 0x3F80_0000, 0);
    let q = demo_payload(counter, timestamp);
    let n = numeric::le32(counter);
    assert(q[12] == n[0] && q[13] == n[1] && q[14] == n[2] && q[15] == n[3]);
    let one = numeric::le32(0x3F80_0000);
    assert(one =~= seq![0u8, 0, 0x80, 0x3F]);
    assert(numeric::le32(0) =~= seq![0u8, 0, 0, 0]);
}

/// The address of a controller is the one that its device information gives,
/// byte for byte, whatever separates its digits; without device information it
/// is zero.
pub proof fn law_address_of_a_controller(c: ControllerModel, mac: Seq<u8>, sep: char)
    requires
        mac.len() == 6,
        !is_hex(sep),
    ensures
        c.device_info matches Some(info) ==> info.mac_address == text::hex_joined(mac, sep)
            ==> controller_mac(c) == mac,
        c.device_info is None ==> controller_mac(c) == seq![0u8, 0, 0, 0, 0, 0],
{
    law_address_round_trip(mac, sep);
}

/// The digits of an address are those from 0 to 9 and from A to F, in capital
/// or small letters, with their values.
pub proof fn law_hexadecimal_digits(c: char)
    ensures
        is_hex(c) == ('0' <= c <= '9' || 'A' <= c <= 'F' || 'a' <= c <= 'f'),
        '0' <= c <= '9' ==> hex_value(c) == c as u32 - '0' as u32,
        'A' <= c <= 'F' ==> hex_value(c) == 10 + (c as u32 - 'A' as u32),
        'a' <= c <= 'f' ==> hex_value(c) == 10 + (c as u32 - 'a' as u32),
{
}

/// Clients that are still active stay listed, in their order, and the others
/// are dropped; a packet goes to those of them that want it.
pub proof fn law_clients_in_order(clients: Seq<ClientModel>, next: ClientModel, now_ms: u64, slot: u8)
    ensures
        ({
            let all = clients.push(next);
            let on = now_ms < next.client.last_seen_ms + 5000;
            let wanted = match next.client.subscription {
                Subscription::All => true,
                Subscription::Slot(s) => s == slot,
            };
            &&& on ==> still_active(all, now_ms) == still_active(clients, now_ms).push(next)
            &&& !on ==> still_active(all, now_ms) == still_active(clients, now_ms)
            &&& on && wanted ==> recipients(all, now_ms, slot) == recipients(
                clients,
                now_ms,
                slot,
            ).push(next.addr)
            &&& !(on && wanted) ==> recipients(all, now_ms, slot) == recipients(
                clients,
                now_ms,
                slot,
            )
        }),
{
    assert(clients.push(next).drop_last() =~= clients);
}

} // verus!
