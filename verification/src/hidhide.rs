//! Hiding the physical controller from other programs: the control codes and
//! buffers of the filter driver, the names that devices and programs go by,
//! and what is done in which order.

use vstd::prelude::*;

use crate::config::enclose;
use crate::numeric;
use crate::text;

verus! {

// ---------------------------------------------------------------------------
// Control codes
// ---------------------------------------------------------------------------

/// The device type of the driver.
pub const HIDHIDE_DEVICE_TYPE: u32 = 0x8000;

/// Any access will do.
pub const HIDHIDE_ACCESS: u32 = 0;

/// Buffers are copied.
pub const HIDHIDE_METHOD: u32 = 0;

pub const IOCTL_GET_WHITELIST: u32 = 0x8000_2000;

pub const IOCTL_SET_WHITELIST: u32 = 0x8000_2004;

pub const IOCTL_GET_BLACKLIST: u32 = 0x8000_2008;

pub const IOCTL_SET_BLACKLIST: u32 = 0x8000_200C;

pub const IOCTL_GET_ACTIVE: u32 = 0x8000_2010;

pub const IOCTL_SET_ACTIVE: u32 = 0x8000_2014;

pub const IOCTL_GET_WLINVERSE: u32 = 0x8000_2018;

pub const IOCTL_SET_WLINVERSE: u32 = 0x8000_201C;

pub const IOCTL_ADD_SESSION_BLACKLIST: u32 = 0x8000_2020;

pub const IOCTL_CLR_SESSION_BLACKLIST: u32 = 0x8000_2024;

/// A control code, from its four parts.
pub fn ctl_code(device_type: u32, function: u32, method: u32, access: u32) -> (r: u32)
    ensures
        r == (device_type << 16) | (access << 14) | (function << 2) | method,
{
    (device_type << 16) | (access << 14) | (function << 2) | method
}

/// The control code of a function of the driver.
pub fn hidhide_ioctl(function: u32) -> (r: u32)
    ensures
        r == 0x8000_0000u32 | (function << 2),
        function < 0x2000_0000 ==> r == 0x8000_0000 + 4 * function,
{
    let r = ctl_code(HIDHIDE_DEVICE_TYPE, function, HIDHIDE_METHOD, HIDHIDE_ACCESS);
    assert((0x8000u32 << 16) | (0u32 << 14) | (function << 2) | 0u32 == 0x8000_0000u32 | (function
        << 2)) by (bit_vector);
    assert(function < 0x2000_0000u32 ==> (0x8000_0000u32 | (function << 2)) == 0x8000_0000u32 + 4
        * function) by (bit_vector);
    r
}

/// The path of the control device.
pub open spec fn control_device_path() -> Seq<char> {
    "\\\\.\\HidHide"@
}

/// The path of the control device.
pub fn control_device() -> (r: String)
    ensures
        r@ == control_device_path(),
{
    "\\\\.\\HidHide".to_string()
}

/// The registry key of the driver's service.
pub fn service_key() -> (r: String)
    ensures
        r@ == "SYSTEM\\CurrentControlSet\\Services\\HidHide"@,
{
    "SYSTEM\\CurrentControlSet\\Services\\HidHide".to_string()
}

/// A device class.
#[derive(Clone, Copy, Debug, PartialEq, Eq)]
pub struct Guid {
    pub data1: u32,
    pub data2: u16,
    pub data3: u16,
    pub data4: [u8; 8],
}

/// The class of human interface devices.
pub fn guid_devclass_hidclass() -> (r: Guid)
    ensures
        r.data1 == 0x745a_17a0,
        r.data2 == 0x74d3,
        r.data3 == 0x11d0,
        r.data4@ == seq![0xb6u8, 0xfe, 0x00, 0xa0, 0xc9, 0x0f, 0x57, 0xda],
{
    let r = Guid {
        data1: 0x745a_17a0,
        data2: 0x74d3,
        data3: 0x11d0,
        data4: [0xb6, 0xfe, 0x00, 0xa0, 0xc9, 0x0f, 0x57, 0xda],
    };
    assert(r.data4@ =~= seq![0xb6u8, 0xfe, 0x00, 0xa0, 0xc9, 0x0f, 0x57, 0xda]);
    r
}

// ---------------------------------------------------------------------------
// Wide strings
// ---------------------------------------------------------------------------

/// The UTF-16 code units of a text, and a zero.
pub fn to_wide(s: &str) -> (r: Vec<u16>)
    ensures
        r@ == text::utf16(s@).push(0u16),
{
    let chars = text::chars_of(s);
    let mut out: Vec<u16> = Vec::new();
    text::push_utf16(&mut out, chars.as_slice());
    assert(out@ =~= text::utf16(s@));
    out.push(0);
    out
}

/// The code units before the first zero, or all of them.
pub open spec fn before_zero(u: Seq<u16>) -> Seq<u16>
    decreases u.len(),
{
    if u.len() == 0 || u[0] == 0 {
        Seq::empty()
    } else {
        seq![u[0]] + before_zero(u.skip(1))
    }
}

proof fn lemma_before_zero(u: Seq<u16>, n: int)
    requires
        0 <= n <= u.len(),
        forall|i: int| 0 <= i < n ==> #[trigger] u[i] != 0,
        n < u.len() ==> u[n] == 0,
    ensures
        before_zero(u) == u.take(n),
    decreases u.len(),
{
    if n > 0 {
        let rest = u.skip(1);
        assert forall|i: int| 0 <= i < n - 1 implies #[trigger] rest[i] != 0 by {
            assert(rest[i] == u[i + 1]);
        }
        lemma_before_zero(rest, n - 1);
        assert(seq![u[0]] + rest.take(n - 1) =~= u.take(n));
    } else {
        assert(u.take(0) =~= Seq::empty());
    }
}

/// The text of a wide string that ends at the first zero.
pub fn from_wide(buf: &[u16]) -> (r: String)
    ensures
        r@ == text::utf16_text(before_zero(buf@)),
{
    let mut n: usize = 0;
    while n < buf.len() && buf[n] != 0
        invariant
            n <= buf@.len(),
            forall|i: int| 0 <= i < n ==> #[trigger] buf@[i] != 0,
        decreases buf@.len() - n,
    {
        n = n + 1;
    }
    proof {
        lemma_before_zero(buf@, n as int);
    }
    assert(buf@.subrange(0, n as int) =~= buf@.take(n as int));
    text::from_utf16(&buf[0..n])
}

/// The bytes of some code units, the low byte of each first.
pub open spec fn unit_bytes(u: Seq<u16>) -> Seq<u8>
    decreases u.len(),
{
    if u.len() == 0 {
        Seq::empty()
    } else {
        unit_bytes(u.drop_last()) + numeric::le16(u.last())
    }
}

/// The bytes of some code units, the low byte of each first.
pub fn bytes_of_units(u: &[u16]) -> (r: Vec<u8>)
    ensures
        r@ == unit_bytes(u@),
{
    let mut out: Vec<u8> = Vec::new();
    let mut i: usize = 0;
    assert(u@.take(0) =~= Seq::empty());
    while i < u.len()
        invariant
            i <= u@.len(),
            out@ == unit_bytes(u@.take(i as int)),
        decreases u@.len() - i,
    {
        assert(u@.take(i + 1).drop_last() =~= u@.take(i as int));
        numeric::push_le16(&mut out, u[i]);
        i = i + 1;
    }
    assert(u@.take(u@.len() as int) =~= u@);
    out
}

/// The code units of some bytes. An odd byte at the end is left out.
pub open spec fn units_from(b: Seq<u8>) -> Seq<u16> {
    Seq::new(b.len() / 2, |i: int| numeric::from_le16(b[2 * i], b[2 * i + 1]))
}

/// The bytes that add a device to the session's blacklist.
pub fn session_blacklist_bytes(device_instance_id: &str) -> (r: Vec<u8>)
    ensures
        r@ == unit_bytes(text::utf16(device_instance_id@).push(0u16)),
{
    let wide = to_wide(device_instance_id);
    bytes_of_units(wide.as_slice())
}

// ---------------------------------------------------------------------------
// Lists of strings
// ---------------------------------------------------------------------------

/// Strings one after another, each with a zero at its end, and a zero after
/// the last.
pub open spec fn multi_units(strings: Seq<Seq<char>>) -> Seq<u16>
    decreases strings.len(),
{
    if strings.len() == 0 {
        seq![0u16]
    } else {
        text::utf16(strings[0]).push(0u16) + multi_units(strings.skip(1))
    }
}

/// Strings one after another, as bytes.
pub fn encode_multi_sz_bytes(strings: &[String]) -> (r: Vec<u8>)
    ensures
        r@ == unit_bytes(multi_units(strings.deep_view())),
{
    let ghost all = strings.deep_view();
    let mut units: Vec<u16> = Vec::new();
    let mut i: usize = 0;
    assert(all.skip(0) =~= all);
    while i < strings.len()
        invariant
            i <= strings@.len(),
            all == strings.deep_view(),
            all.len() == strings@.len(),
            units@ + multi_units(all.skip(i as int)) == multi_units(all),
        decreases strings@.len() - i,
    {
        let ghost was = units@;
        let ghost rest = all.skip(i as int);
        let chars = text::chars_of(strings[i].as_str());
        text::push_utf16(&mut units, chars.as_slice());
        units.push(0);
        assert(rest[0] == strings@[i as int]@);
        assert(rest.skip(1) =~= all.skip(i + 1));
        assert(units@ + multi_units(all.skip(i + 1)) =~= was + multi_units(rest));
        i = i + 1;
    }
    units.push(0);
    assert(all.skip(i as int).len() == 0);
    assert(units@ =~= multi_units(all));
    bytes_of_units(units.as_slice())
}

/// The strings that code units hold: each ends at a zero, and the list ends at
/// a second zero in a row. `current` is the string that has begun, and
/// `was_zero` says whether a zero has just been read. What is not ended is
/// left out.
pub open spec fn strings_in(units: Seq<u16>, current: Seq<u16>, was_zero: bool) -> Seq<Seq<char>>
    decreases units.len(),
{
    if units.len() == 0 {
        Seq::empty()
    } else if units[0] != 0 {
        strings_in(units.skip(1), current.push(units[0]), false)
    } else if was_zero {
        Seq::empty()
    } else if current.len() > 0 {
        seq![text::utf16_text(current)] + strings_in(units.skip(1), Seq::empty(), true)
    } else {
        strings_in(units.skip(1), Seq::empty(), true)
    }
}

/// The strings of a list.
pub fn decode_multi_sz_bytes(bytes: &[u8]) -> (r: Vec<String>)
    ensures
        r.deep_view() == strings_in(units_from(bytes@), Seq::empty(), false),
{
    let ghost units = units_from(bytes@);
    let ghost all = strings_in(units, Seq::empty(), false);
    let mut out: Vec<String> = Vec::new();
    let mut current: Vec<u16> = Vec::new();
    let mut was_zero = false;
    let n: usize = bytes.len() / 2;
    let mut i: usize = 0;
    assert(units.skip(0) =~= units);
    assert(out.deep_view() =~= Seq::<Seq<char>>::empty());
    assert(current@ =~= Seq::<u16>::empty());
    assert(out.deep_view() + strings_in(units.skip(0), current@, was_zero) =~= all);
    while i < n
        invariant
            i <= n,
            n == bytes@.len() / 2,
            2 * n <= bytes@.len() <= usize::MAX,
            units == units_from(bytes@),
            all == strings_in(units, Seq::empty(), false),
            out.deep_view() + strings_in(units.skip(i as int), current@, was_zero) == all,
        decreases n - i,
    {
        let ghost rest = units.skip(i as int);
        let ghost had = out.deep_view();
        let c = numeric::u16_le(bytes[2 * i], bytes[2 * i + 1]);
        assert(rest[0] == c);
        assert(rest.skip(1) =~= units.skip(i + 1));
        if c == 0 {
            if was_zero {
                assert(out.deep_view() =~= all);
                return out;
            }
            if current.len() > 0 {
                let s = text::from_utf16(current.as_slice());
                let ghost shown = s@;
                out.push(s);
                assert(out.deep_view() =~= had.push(shown));
                current = Vec::new();
                assert(current@ =~= Seq::<u16>::empty());
                assert(out.deep_view() + strings_in(units.skip(i + 1), current@, true) =~= all);
            } else {
                assert(current@ =~= Seq::<u16>::empty());
            }
            was_zero = true;
        } else {
            was_zero = false;
            current.push(c);
        }
        i = i + 1;
    }
    assert(units.skip(i as int).len() == 0);
    assert(out.deep_view() =~= all);
    out
}

/// What the driver says of the size of a list.
#[derive(Clone, Copy, Debug, PartialEq, Eq, Structural)]
pub enum ListSize {
    /// It could not be asked.
    Failed,
    /// The list is empty.
    Empty,
    /// A buffer of this size is needed.
    Needs(u32),
}

/// What the driver says of the size of a list. That the buffer was too small
/// (122), or that there is more (234), is the expected answer.
pub open spec fn list_size_of(ok: bool, err: i32, needed: u32) -> ListSize {
    if !ok && err != 122 && err != 234 {
        ListSize::Failed
    } else if needed == 0 {
        ListSize::Empty
    } else {
        ListSize::Needs(needed)
    }
}

/// What the driver says of the size of a list.
pub fn list_size(ok: bool, err: i32, needed: u32) -> (r: ListSize)
    ensures
        r == list_size_of(ok, err, needed),
{
    if !ok && err != 122 && err != 234 {
        return ListSize::Failed;
    }
    if needed == 0 {
        return ListSize::Empty;
    }
    ListSize::Needs(needed)
}

/// The strings in the part of a buffer that was filled.
pub fn read_list(buffer: &[u8], filled: usize) -> (r: Vec<String>)
    ensures
        r.deep_view() == strings_in(
            units_from(
                if filled < buffer@.len() {
                    buffer@.take(filled as int)
                } else {
                    buffer@
                },
            ),
            Seq::empty(),
            false,
        ),
{
    if filled < buffer.len() {
        assert(buffer@.subrange(0, filled as int) =~= buffer@.take(filled as int));
        return decode_multi_sz_bytes(&buffer[0..filled]);
    }
    decode_multi_sz_bytes(buffer)
}

/// Whether a list holds a text, in capital or small letters.
pub open spec fn lists_lower(list: Seq<Seq<char>>, lower: Seq<char>) -> bool {
    exists|i: int| 0 <= i < list.len() && text::lowercase(#[trigger] list[i]) == lower
}

/// Whether a text, in small letters, is on a list in capital or small letters.
pub fn is_listed(list: &Vec<String>, lower: &str) -> (r: bool)
    ensures
        r == lists_lower(list.deep_view(), lower@),
{
    let ghost all = list.deep_view();
    let mut i: usize = 0;
    while i < list.len()
        invariant
            i <= list@.len(),
            all == list.deep_view(),
            forall|j: int| 0 <= j < i ==> text::lowercase(#[trigger] all[j]) != lower@,
        decreases list@.len() - i,
    {
        let l = text::to_lowercase(list[i].as_str());
        assert(all[i as int] == list@[i as int]@);
        if text::same(l.as_str(), lower) {
            return true;
        }
        i = i + 1;
    }
    false
}

/// The list to write so that a program is on it, or none where it already is.
pub fn whitelist_with(list: Vec<String>, app_path: &str) -> (r: Option<Vec<String>>)
    ensures
        r is None == lists_lower(list.deep_view(), text::lowercase(app_path@)),
        r matches Some(l) ==> l.deep_view() == list.deep_view().push(app_path@),
{
    let ghost was = list.deep_view();
    let lower = text::to_lowercase(app_path);
    if is_listed(&list, lower.as_str()) {
        return None;
    }
    let mut l = list;
    l.push(app_path.to_owned());
    assert(l.deep_view() =~= was.push(app_path@));
    Some(l)
}

// ---------------------------------------------------------------------------
// Paths of programs
// ---------------------------------------------------------------------------

/// A path without the mark of a verbatim one.
pub open spec fn without_verbatim(path: Seq<char>) -> Seq<char> {
    if text::has_prefix(path, "\\\\?\\"@) {
        path.skip(4)
    } else {
        path
    }
}

/// A path without the mark of a verbatim one.
pub fn strip_verbatim_prefix(path: &str) -> (r: String)
    ensures
        r@ == without_verbatim(path@),
{
    let chars = text::chars_of(path);
    let mark = text::chars_of("\\\\?\\");
    proof {
        reveal_strlit("\\\\?\\");
    }
    if text::starts_with(chars.as_slice(), mark.as_slice()) {
        let rest = text::slice_chars(chars.as_slice(), 4, chars.len());
        assert(rest@ =~= path@.skip(4));
        return text::string_of(rest.as_slice());
    }
    text::string_of(chars.as_slice())
}

/// How many bytes a character takes in UTF-8.
pub open spec fn utf8_width(c: char) -> int {
    let x = c as u32;
    if x < 0x80 {
        1
    } else if x < 0x800 {
        2
    } else if x < 0x10000 {
        3
    } else {
        4
    }
}

/// How many bytes a text takes in UTF-8.
pub open spec fn utf8_len(s: Seq<char>) -> int
    decreases s.len(),
{
    if s.len() == 0 {
        0
    } else {
        utf8_len(s.drop_last()) + utf8_width(s.last())
    }
}

/// How many characters the first `n` bytes of a text are; none where they end
/// within a character or the text is shorter.
pub open spec fn chars_in_bytes(s: Seq<char>, n: int) -> Option<int>
    decreases s.len(),
{
    if n == 0 {
        Some(0)
    } else if s.len() == 0 || n < utf8_width(s[0]) {
        None
    } else {
        match chars_in_bytes(s.skip(1), n - utf8_width(s[0])) {
            Some(k) => Some(k + 1),
            None => None,
        }
    }
}

fn width_of(c: char) -> (r: u64)
    ensures
        r == utf8_width(c),
{
    let x: u32 = c as u32;
    if x < 0x80 {
        1
    } else if x < 0x800 {
        2
    } else if x < 0x10000 {
        3
    } else {
        4
    }
}

fn byte_len(s: &[char]) -> (r: u128)
    ensures
        r == utf8_len(s@),
{
    let mut n: u128 = 0;
    let mut i: usize = 0;
    assert(s@.take(0) =~= Seq::empty());
    while i < s.len()
        invariant
            i <= s@.len(),
            n == utf8_len(s@.take(i as int)),
            n <= 4 * i,
        decreases s@.len() - i,
    {
        assert(s@.take(i + 1).drop_last() =~= s@.take(i as int));
        n = n + width_of(s[i]) as u128;
        i = i + 1;
    }
    assert(s@.take(s@.len() as int) =~= s@);
    n
}

fn find_chars_in_bytes(s: &[char], n: u128) -> (r: Option<usize>)
    ensures
        match r {
            Some(k) => k <= s@.len() && chars_in_bytes(s@, n as int) == Some(k as int),
            None => chars_in_bytes(s@, n as int) is None,
        },
{
    let mut left: u128 = n;
    let mut i: usize = 0;
    assert(s@.skip(0) =~= s@);
    while left > 0
        invariant
            i <= s@.len(),
            match chars_in_bytes(s@.skip(i as int), left as int) {
                Some(k) => chars_in_bytes(s@, n as int) == Some(k + i),
                None => chars_in_bytes(s@, n as int) is None,
            },
        decreases s@.len() - i,
    {
        let ghost rest = s@.skip(i as int);
        if i == s.len() {
            return None;
        }
        assert(rest[0] == s@[i as int]);
        let w: u128 = width_of(s[i]) as u128;
        if left < w {
            return None;
        }
        assert(rest.skip(1) =~= s@.skip(i + 1));
        left = left - w;
        i = i + 1;
    }
    Some(i)
}

/// The path of a program below the name of its volume. `rooted` says whether
/// the path begins with the root of the volume, which is then left out, as
/// many bytes as the root has.
pub open spec fn nt_path_of(
    stripped: Seq<char>,
    vol_root: Seq<char>,
    nt_volume: Seq<char>,
    rooted: bool,
) -> Seq<char> {
    let rest = match chars_in_bytes(stripped, utf8_len(vol_root)) {
        Some(k) => if rooted {
            stripped.skip(k)
        } else {
            stripped
        },
        None => stripped,
    };
    nt_volume + "\\"@ + rest
}

/// Whether a path begins with the root of a volume, in capital or small
/// letters.
pub open spec fn is_rooted(stripped: Seq<char>, vol_root: Seq<char>) -> bool {
    text::has_prefix(text::lowercase(stripped), text::lowercase(vol_root))
}

/// The path of a program below the name of its volume, where it is known
/// whether the path begins with the root of the volume.
pub fn assemble_nt_path(stripped: &str, vol_root: &str, nt_volume: &str, rooted: bool) -> (r:
    String)
    requires
        rooted ==> chars_in_bytes(stripped@, utf8_len(vol_root@)) is Some,
    ensures
        r@ == nt_path_of(stripped@, vol_root@, nt_volume@, rooted),
{
    if !rooted {
        return enclose(nt_volume, "\\", stripped);
    }
    let chars = text::chars_of(stripped);
    let root = text::chars_of(vol_root);
    let n = byte_len(root.as_slice());
    match find_chars_in_bytes(chars.as_slice(), n) {
        Some(k) => {
            let rest = text::slice_chars(chars.as_slice(), k, chars.len());
            assert(rest@ =~= stripped@.skip(k as int));
            let tail = text::string_of(rest.as_slice());
            enclose(nt_volume, "\\", tail.as_str())
        },
        None => enclose(nt_volume, "\\", stripped),
    }
}

fn begins_with_root(stripped: &str, vol_root: &str) -> (r: bool)
    ensures
        r == is_rooted(stripped@, vol_root@),
{
    let lower = text::to_lowercase(stripped);
    let root = text::to_lowercase(vol_root);
    let a = text::chars_of(lower.as_str());
    let b = text::chars_of(root.as_str());
    text::starts_with(a.as_slice(), b.as_slice())
}

/// The path of a program below the name of its volume.
pub fn compute_nt_path(stripped: &str, vol_root: &str, nt_volume: &str) -> (r: String)
    requires
        is_rooted(stripped@, vol_root@) ==> chars_in_bytes(
            stripped@,
            utf8_len(vol_root@),
        ) is Some,
    ensures
        r@ == nt_path_of(stripped@, vol_root@, nt_volume@, is_rooted(stripped@, vol_root@)),
{
    let rooted = begins_with_root(stripped, vol_root);
    assemble_nt_path(stripped, vol_root, nt_volume, rooted)
}

/// The path of a program below the name of its volume; none where the root of
/// the volume ends within a character of the path.
pub fn try_compute_nt_path(stripped: &str, vol_root: &str, nt_volume: &str) -> (r: Option<String>)
    ensures
        r is None == (is_rooted(stripped@, vol_root@) && chars_in_bytes(
            stripped@,
            utf8_len(vol_root@),
        ) is None),
        r matches Some(p) ==> p@ == nt_path_of(
            stripped@,
            vol_root@,
            nt_volume@,
            is_rooted(stripped@, vol_root@),
        ),
{
    let chars = text::chars_of(stripped);
    let root = text::chars_of(vol_root);
    let n = byte_len(root.as_slice());
    if find_chars_in_bytes(chars.as_slice(), n).is_none() && begins_with_root(stripped, vol_root) {
        return None;
    }
    Some(compute_nt_path(stripped, vol_root, nt_volume))
}

/// The drive of a volume: its root without the backslashes at the end.
pub fn drive_of(vol_root: &str) -> (r: String)
    ensures
        r@ == text::without_trailing(vol_root@, '\\'),
{
    let chars = text::chars_of(vol_root);
    let drive = text::trim_end_matches(chars.as_slice(), '\\');
    text::string_of(drive.as_slice())
}

// ---------------------------------------------------------------------------
// Devices
// ---------------------------------------------------------------------------

/// Whether an instance path, in small letters, names the vendor and the
/// product.
pub open spec fn names_pro_controller(lower: Seq<char>) -> bool {
    (text::has_infix(lower, "vid_057e"@) || text::has_infix(lower, "vid&0002057e"@)) && (
    text::has_infix(lower, "pid_2009"@) || text::has_infix(lower, "pid&2009"@))
}

/// Whether an instance path, in small letters, names the vendor and the
/// product.
pub fn lower_is_pro_controller(lower: &str) -> (r: bool)
    ensures
        r == names_pro_controller(lower@),
{
    let chars = text::chars_of(lower);
    let vid = text::chars_of("vid_057e");
    let vid_bt = text::chars_of("vid&0002057e");
    let pid = text::chars_of("pid_2009");
    let pid_bt = text::chars_of("pid&2009");
    let has_vid = text::contains(chars.as_slice(), vid.as_slice()) || text::contains(
        chars.as_slice(),
        vid_bt.as_slice(),
    );
    let has_pid = text::contains(chars.as_slice(), pid.as_slice()) || text::contains(
        chars.as_slice(),
        pid_bt.as_slice(),
    );
    has_vid && has_pid
}

/// Whether an instance path is that of a Pro Controller.
pub fn is_pro_controller(instance_id: &str) -> (r: bool)
    ensures
        r == names_pro_controller(text::lowercase(instance_id@)),
        text::ascii_only(instance_id@) ==> r == names_pro_controller(
            text::ascii_lowered(instance_id@),
        ),
{
    let lower = text::to_lowercase(instance_id);
    lower_is_pro_controller(lower.as_str())
}

/// Whether a hardware identifier, in capital letters, is that of a Pro
/// Controller.
pub fn is_pro_hardware_id(id: &str) -> (r: bool)
    ensures
        r == (text::has_infix(id@, "VID_057E"@) && text::has_infix(id@, "PID_2009"@)),
{
    let chars = text::chars_of(id);
    let vid = text::chars_of("VID_057E");
    let pid = text::chars_of("PID_2009");
    text::contains(chars.as_slice(), vid.as_slice()) && text::contains(
        chars.as_slice(),
        pid.as_slice(),
    )
}

/// The first of some instance paths that is a Pro Controller's.
pub fn first_pro_controller(ids: &Vec<String>) -> (r: Option<usize>)
    ensures
        match r {
            Some(i) => i < ids@.len() && names_pro_controller(text::lowercase(ids@[i as int]@))
                && forall|j: int|
                0 <= j < i ==> !names_pro_controller(text::lowercase((#[trigger] ids@[j])@)),
            None => forall|j: int|
                0 <= j < ids@.len() ==> !names_pro_controller(
                    text::lowercase((#[trigger] ids@[j])@),
                ),
        },
{
    let mut i: usize = 0;
    while i < ids.len()
        invariant
            i <= ids@.len(),
            forall|j: int|
                0 <= j < i ==> !names_pro_controller(text::lowercase((#[trigger] ids@[j])@)),
        decreases ids@.len() - i,
    {
        if is_pro_controller(ids[i].as_str()) {
            return Some(i);
        }
        i = i + 1;
    }
    None
}

// ---------------------------------------------------------------------------
// Status
// ---------------------------------------------------------------------------

/// Whether the driver is installed: its control device opens, or its service
/// is registered and the device is denied (5), in use (32) or not there (2).
pub fn is_installed(opened: bool, registered: bool, err: u32) -> (r: bool)
    ensures
        r == (opened || (registered && (err == 5 || err == 32 || err == 2))),
{
    if opened {
        return true;
    }
    registered && (err == 5 || err == 32 || err == 2)
}

/// What is known of the driver and the controller.
#[derive(Debug, PartialEq, Eq)]
pub struct HidHideStatus {
    pub installed: bool,
    pub enabled: bool,
    pub hidden: bool,
    pub device_path: String,
    pub message: String,
}

impl Default for HidHideStatus {
    fn default() -> (r: Self)
        ensures
            !r.installed && !r.enabled && !r.hidden,
            r.device_path@.len() == 0,
            r.message@.len() == 0,
    {
        HidHideStatus {
            installed: false,
            enabled: false,
            hidden: false,
            device_path: String::new(),
            message: String::new(),
        }
    }
}

impl Clone for HidHideStatus {
    fn clone(&self) -> (r: Self)
        ensures
            r.installed == self.installed,
            r.enabled == self.enabled,
            r.hidden == self.hidden,
            r.device_path@ == self.device_path@,
            r.message@ == self.message@,
    {
        HidHideStatus {
            installed: self.installed,
            enabled: self.enabled,
            hidden: self.hidden,
            device_path: self.device_path.clone(),
            message: self.message.clone(),
        }
    }
}

/// Whether a device is hidden: the driver is active, and there is a device.
pub fn compute_hidden_flag(enabled: bool, device_path: &str) -> (r: bool)
    ensures
        r == (enabled && device_path@.len() > 0),
{
    enabled && text::chars_of(device_path).len() > 0
}

/// The path that is shown for a device that was looked for.
pub open spec fn shown_path(found: Result<Option<String>, String>) -> Seq<char> {
    match found {
        Ok(Some(path)) => path@,
        Ok(None) => "Not found"@,
        Err(e) => e@,
    }
}

/// Whether a device was found.
pub open spec fn has_path(found: Result<Option<String>, String>) -> bool {
    found matches Ok(Some(path)) && path@.len() > 0
}

/// Puts together what is known. `opened` is whether the driver is active, or
/// why its control device did not open.
pub fn get_hidhide_status(
    installed: bool,
    found: Result<Option<String>, String>,
    opened: Result<bool, String>,
) -> (r: HidHideStatus)
    ensures
        r.installed == installed,
        r.device_path@ == shown_path(found),
        match opened {
            Ok(active) => r.enabled == active && r.hidden == (active && has_path(found))
                && r.message@ == "HidHide control device opened"@,
            Err(e) => !r.enabled && !r.hidden && r.message@ == e@,
        },
{
    let active = match &opened {
        Ok(a) => *a,
        Err(_) => false,
    };
    let hidden = match &found {
        Ok(Some(path)) => compute_hidden_flag(active, path.as_str()),
        _ => false,
    };
    let device_path = match found {
        Ok(Some(path)) => path,
        Ok(None) => "Not found".to_string(),
        Err(e) => e,
    };
    match opened {
        Ok(_) => HidHideStatus {
            installed,
            enabled: active,
            hidden,
            device_path,
            message: "HidHide control device opened".to_string(),
        },
        Err(e) => HidHideStatus {
            installed,
            enabled: false,
            hidden: false,
            device_path,
            message: e,
        },
    }
}

/// Something the driver is asked to do.
#[derive(Debug, PartialEq, Eq)]
pub enum HideStep {
    /// Hide a device for this session.
    AddSession(String),
    /// Let a program see hidden devices.
    Allow(String),
    /// Switch hiding on or off.
    SetActive(bool),
    /// Hide no device of this session any more.
    ClearSession,
}

/// What a `HideStep` asks for.
#[verifier::ext_equal]
pub enum HideStepModel {
    AddSession(Seq<char>),
    Allow(Seq<char>),
    SetActive(bool),
    ClearSession,
}

impl DeepView for HideStep {
    type V = HideStepModel;

    open spec fn deep_view(&self) -> HideStepModel {
        match *self {
            HideStep::AddSession(id) => HideStepModel::AddSession(id@),
            HideStep::Allow(app) => HideStepModel::Allow(app@),
            HideStep::SetActive(on) => HideStepModel::SetActive(on),
            HideStep::ClearSession => HideStepModel::ClearSession,
        }
    }
}

/// What is done to hide a controller from all programs but one, in order.
pub open spec fn setup_steps(device: Option<Seq<char>>, exe: Seq<char>) -> Seq<HideStepModel> {
    (match device {
        Some(id) => seq![HideStepModel::AddSession(id)],
        None => Seq::empty(),
    }) + (if exe.len() > 0 {
        seq![HideStepModel::Allow(exe)]
    } else {
        Seq::empty()
    }) + seq![HideStepModel::SetActive(true)]
}

/// What is done to hide a controller from all programs but one, in order.
pub fn setup_for_oxidelink(device: &Option<String>, exe: &str) -> (r: Vec<HideStep>)
    ensures
        r.deep_view() == setup_steps(
            match device {
                Some(id) => Some(id@),
                None => None,
            },
            exe@,
        ),
{
    let mut out: Vec<HideStep> = Vec::new();
    match device {
        Some(id) => {
            out.push(HideStep::AddSession(id.clone()));
        },
        None => {},
    }
    if text::chars_of(exe).len() > 0 {
        out.push(HideStep::Allow(exe.to_owned()));
    }
    out.push(HideStep::SetActive(true));
    assert(out.deep_view() =~= setup_steps(
        match device {
            Some(id) => Some(id@),
            None => None,
        },
        exe@,
    ));
    out
}

/// What is done to show a controller again, in order.
pub fn unhide_steps() -> (r: Vec<HideStep>)
    ensures
        r.deep_view() == seq![HideStepModel::SetActive(false), HideStepModel::ClearSession],
{
    let mut out: Vec<HideStep> = Vec::new();
    out.push(HideStep::SetActive(false));
    out.push(HideStep::ClearSession);
    assert(out.deep_view() =~= seq![
        HideStepModel::SetActive(false),
        HideStepModel::ClearSession,
    ]);
    out
}

// ---------------------------------------------------------------------------
// Laws
// ---------------------------------------------------------------------------

/// Reading the bytes of some code units gives the code units back.
pub proof fn law_unit_bytes_round_trip(u: Seq<u16>)
    ensures
        unit_bytes(u).len() == 2 * u.len(),
        units_from(unit_bytes(u)) == u,
    decreases u.len(),
{
    if u.len() > 0 {
        let rest = u.drop_last();
        law_unit_bytes_round_trip(rest);
        numeric::law_le16_round_trip(u.last());
        let b = unit_bytes(u);
        let had = unit_bytes(rest);
        assert(b == had + numeric::le16(u.last()));
        assert forall|i: int| 0 <= i < u.len() implies #[trigger] units_from(b)[i] == u[i] by {
            if i < rest.len() {
                assert(units_from(had)[i] == rest[i]);
                assert(b[2 * i] == had[2 * i] && b[2 * i + 1] == had[2 * i + 1]);
            } else {
                assert(b[2 * i] == numeric::le16(u.last())[0]);
                assert(b[2 * i + 1] == numeric::le16(u.last())[1]);
            }
        }
        assert(units_from(b) =~= u);
    } else {
        assert(units_from(unit_bytes(u)) =~= u);
    }
}

proof fn lemma_before_zero_in_run(run: Seq<u16>, rest: Seq<u16>)
    requires
        forall|i: int| 0 <= i < run.len() ==> #[trigger] run[i] != 0,
    ensures
        before_zero(run + rest) == run + before_zero(rest),
    decreases run.len(),
{
    if run.len() == 0 {
        assert(run + rest =~= rest);
        assert(run + before_zero(rest) =~= before_zero(rest));
    } else {
        let tail = run.skip(1);
        assert forall|i: int| 0 <= i < tail.len() implies #[trigger] tail[i] != 0 by {
            assert(tail[i] == run[i + 1]);
        }
        lemma_before_zero_in_run(tail, rest);
        assert((run + rest)[0] == run[0]);
        assert((run + rest).skip(1) =~= tail + rest);
        assert(seq![run[0]] + (tail + before_zero(rest)) =~= run + before_zero(rest));
    }
}

proof fn lemma_wide_ends_at_nul(s: Seq<char>, more: Seq<u16>)
    ensures
        before_zero(text::utf16(s).push(0u16) + more) == text::utf16(
            s.take(text::before(s, '\0')),
        ),
    decreases s.len(),
{
    text::lemma_before(s, '\0');
    let all = text::utf16(s).push(0u16) + more;
    let kept = s.take(text::before(s, '\0'));
    if s.len() == 0 || s[0] == '\0' {
        assert(all[0] == 0);
        assert(kept =~= Seq::<char>::empty());
    } else {
        let head = text::units_of(s[0]);
        let tail = s.drop_first();
        let rest = text::utf16(tail).push(0u16) + more;
        lemma_units_are_not_zero(s[0]);
        assert(all =~= head + rest);
        lemma_before_zero_in_run(head, rest);
        lemma_wide_ends_at_nul(tail, more);
        text::lemma_before(tail, '\0');
        assert(kept[0] == s[0]);
        assert(kept.drop_first() =~= tail.take(text::before(tail, '\0')));
    }
}

/// A text read back from its wide form is the text, up to its first NUL,
/// whatever follows the zero at its end.
pub proof fn law_wide_round_trip(s: Seq<char>, more: Seq<u16>)
    ensures
        text::utf16_text(before_zero(text::utf16(s).push(0u16) + more)) == s.take(
            text::before(s, '\0'),
        ),
{
    lemma_wide_ends_at_nul(s, more);
    text::lemma_utf16_round_trip(s.take(text::before(s, '\0')));
}

proof fn lemma_units_are_not_zero(c: char)
    requires
        c != '\0',
    ensures
        text::units_of(c).len() > 0,
        forall|i: int| 0 <= i < text::units_of(c).len() ==> #[trigger] text::units_of(c)[i] != 0,
{
    let x = c as u32;
    let u = text::units_of(c);
    if x < 0x10000 {
        assert(u[0] == x);
    } else {
        assert(u[0] >= 0xD800 && u[1] >= 0xDC00);
    }
}

proof fn lemma_no_zero_unit(s: Seq<char>)
    requires
        !s.contains('\0'),
    ensures
        forall|i: int| 0 <= i < text::utf16(s).len() ==> #[trigger] text::utf16(s)[i] != 0,
        s.len() > 0 ==> text::utf16(s).len() > 0,
    decreases s.len(),
{
    if s.len() > 0 {
        let rest = s.drop_first();
        assert(!rest.contains('\0')) by {
            if rest.contains('\0') {
                let i = choose|i: int| 0 <= i < rest.len() && rest[i] == '\0';
                assert(s[i + 1] == '\0');
            }
        }
        lemma_no_zero_unit(rest);
        assert(s[0] != '\0');
        let head = text::units_of(s[0]);
        lemma_units_are_not_zero(s[0]);
        assert forall|i: int| 0 <= i < text::utf16(s).len() implies #[trigger] text::utf16(s)[i]
            != 0 by {
            if i < head.len() {
                assert(text::utf16(s)[i] == head[i]);
            } else {
                assert(text::utf16(s)[i] == text::utf16(rest)[i - head.len()]);
            }
        }
    }
}

proof fn lemma_strings_in_run(run: Seq<u16>, rest: Seq<u16>, current: Seq<u16>, was_zero: bool)
    requires
        forall|i: int| 0 <= i < run.len() ==> #[trigger] run[i] != 0,
        run.len() > 0,
    ensures
        strings_in(run + rest, current, was_zero) == strings_in(rest, current + run, false),
    decreases run.len(),
{
    let all = run + rest;
    assert(all[0] == run[0]);
    let tail = run.skip(1);
    assert(all.skip(1) =~= tail + rest);
    if tail.len() == 0 {
        assert(tail + rest =~= rest);
        assert(current.push(run[0]) =~= current + run);
    } else {
        assert forall|i: int| 0 <= i < tail.len() implies #[trigger] tail[i] != 0 by {
            assert(tail[i] == run[i + 1]);
        }
        lemma_strings_in_run(tail, rest, current.push(run[0]), false);
        assert(current.push(run[0]) + tail =~= current + run);
    }
}

proof fn lemma_strings_round_trip(strings: Seq<Seq<char>>, more: Seq<u16>, was_zero: bool)
    requires
        was_zero || strings.len() > 0 || more.len() == 0,
        forall|i: int|
            0 <= i < strings.len() ==> (#[trigger] strings[i]).len() > 0 && !strings[i].contains(
                '\0',
            ),
    ensures
        strings_in(multi_units(strings) + more, Seq::empty(), was_zero) == strings,
    decreases strings.len(),
{
    let none = Seq::<u16>::empty();
    if strings.len() == 0 {
        let units = multi_units(strings) + more;
        assert(units[0] == 0);
        if !was_zero {
            assert(units.skip(1).len() == 0);
            assert(strings_in(units.skip(1), none, true) =~= Seq::<Seq<char>>::empty());
        }
        assert(strings_in(units, none, was_zero) =~= strings);
    } else {
        let s = strings[0];
        let u = text::utf16(s);
        let tail = strings.skip(1);
        let after = multi_units(tail) + more;
        lemma_no_zero_unit(s);
        assert(multi_units(strings) + more =~= u + (seq![0u16] + after));
        lemma_strings_in_run(u, seq![0u16] + after, none, was_zero);
        assert(none + u =~= u);
        let rest = seq![0u16] + after;
        assert(rest[0] == 0);
        assert(rest.skip(1) =~= after);
        assert(strings_in(rest, u, false) == seq![text::utf16_text(u)] + strings_in(
            after,
            none,
            true,
        ));
        text::lemma_utf16_round_trip(s);
        assert forall|i: int| 0 <= i < tail.len() implies (#[trigger] tail[i]).len() > 0
            && !tail[i].contains('\0') by {
            assert(tail[i] == strings[i + 1]);
        }
        lemma_strings_round_trip(tail, more, true);
        assert(seq![s] + tail =~= strings);
    }
}

/// A list of strings, none of them empty and none with a NUL in it, is read
/// back from its bytes as it was; whatever follows these bytes, where there is
/// a string in the list.
pub proof fn law_multi_sz_round_trip(strings: Seq<Seq<char>>, more: Seq<u8>)
    requires
        strings.len() > 0 || more.len() == 0,
        forall|i: int|
            0 <= i < strings.len() ==> (#[trigger] strings[i]).len() > 0 && !strings[i].contains(
                '\0',
            ),
    ensures
        strings_in(units_from(unit_bytes(multi_units(strings)) + more), Seq::empty(), false)
            == strings,
{
    let units = multi_units(strings);
    let bytes = unit_bytes(units);
    law_unit_bytes_round_trip(units);
    assert forall|i: int| 0 <= i < units.len() + more.len() / 2 implies #[trigger] units_from(
        bytes + more,
    )[i] == (units + units_from(more))[i] by {
        if i < units.len() {
            assert(units_from(bytes)[i] == units[i]);
        }
    }
    assert(units_from(bytes + more) =~= units + units_from(more));
    lemma_strings_round_trip(strings, units_from(more), false);
}

proof fn lemma_ascii_bytes(s: Seq<char>)
    requires
        text::ascii_only(s),
    ensures
        utf8_len(s) == s.len(),
    decreases s.len(),
{
    if s.len() > 0 {
        assert(text::ascii_only(s.drop_last()));
        lemma_ascii_bytes(s.drop_last());
    }
}

proof fn lemma_ascii_chars_in_bytes(s: Seq<char>, n: int)
    requires
        0 <= n <= s.len(),
        text::ascii_only(s.take(n)),
    ensures
        chars_in_bytes(s, n) == Some(n),
    decreases s.len(),
{
    if n > 0 {
        assert(s[0] == s.take(n)[0]);
        let rest = s.skip(1);
        assert(rest.take(n - 1) =~= s.take(n).skip(1));
        assert(text::ascii_only(rest.take(n - 1))) by {
            assert forall|i: int| 0 <= i < n - 1 implies (#[trigger] rest.take(n - 1)[i]) as u32
                <= 127 by {
                assert(rest.take(n - 1)[i] == s.take(n)[i + 1]);
            }
        }
        lemma_ascii_chars_in_bytes(rest, n - 1);
    }
}

/// Where the root of a volume and the part of the path that it matches are
/// plain letters, just that part is left out.
pub proof fn law_root_is_left_out(
    stripped: Seq<char>,
    vol_root: Seq<char>,
    nt_volume: Seq<char>,
)
    requires
        vol_root.len() <= stripped.len(),
        text::ascii_only(vol_root),
        text::ascii_only(stripped.take(vol_root.len() as int)),
    ensures
        chars_in_bytes(stripped, utf8_len(vol_root)) is Some,
        nt_path_of(stripped, vol_root, nt_volume, true) == nt_volume + "\\"@ + stripped.skip(
            vol_root.len() as int,
        ),
        nt_path_of(stripped, vol_root, nt_volume, false) == nt_volume + "\\"@ + stripped,
{
    lemma_ascii_bytes(vol_root);
    lemma_ascii_chars_in_bytes(stripped, vol_root.len() as int);
}

/// Adding a program to a list twice adds it once.
pub proof fn law_whitelist_adds_once(list: Seq<Seq<char>>, app: Seq<char>)
    ensures
        lists_lower(list.push(app), text::lowercase(app)),
{
    assert(list.push(app)[list.len() as int] == app);
}

/// A code unit is two bytes, the low one first.
pub proof fn law_bytes_of_code_units(u: Seq<u16>, i: int)
    requires
        0 <= i < u.len(),
    ensures
        unit_bytes(u).len() == 2 * u.len(),
        unit_bytes(u)[2 * i] + 256 * unit_bytes(u)[2 * i + 1] == u[i],
    decreases u.len(),
{
    law_unit_bytes_round_trip(u);
    let b = unit_bytes(u);
    assert(units_from(b)[i] == u[i]);
    numeric::law_bytes_are_read_by_weight(b[2 * i], b[2 * i + 1], 0, 0);
}

/// The bytes of a list: each string with a zero behind it, and one more zero
/// at the end.
pub proof fn law_list_layout(first: Seq<char>, rest: Seq<Seq<char>>)
    ensures
        multi_units(Seq::empty()) == seq![0u16],
        multi_units(seq![first] + rest) == text::utf16(first) + seq![0u16] + multi_units(rest),
{
    let all = seq![first] + rest;
    assert(all[0] == first);
    assert(all.skip(1) =~= rest);
    assert(text::utf16(first).push(0u16) + multi_units(rest) =~= text::utf16(first) + seq![0u16]
        + multi_units(rest));
}

/// A list can be asked for where its size is known, or where the driver says
/// that the buffer was too small (122) or that there is more (234).
pub proof fn law_size_of_a_list(ok: bool, err: i32, needed: u32)
    ensures
        ({
            let r = list_size_of(ok, err, needed);
            let known = ok || err == 122 || err == 234;
            &&& (r == ListSize::Failed) == !known
            &&& known && needed == 0 ==> r == ListSize::Empty
            &&& known && needed > 0 ==> r == ListSize::Needs(needed)
        }),
{
}

/// The mark of a verbatim path is taken off, once, and no other path changes.
pub proof fn law_verbatim_paths(rest: Seq<char>)
    ensures
        without_verbatim("\\\\?\\"@ + rest) == rest,
        !text::has_prefix(rest, "\\\\?\\"@) ==> without_verbatim(rest) == rest,
{
    reveal_strlit("\\\\?\\");
    let mark = "\\\\?\\"@;
    text::law_parts_of_a_text(mark, rest, Seq::empty());
    assert(mark.len() == 4);
    assert((mark + rest).skip(4) =~= rest);
}

/// A character takes as many bytes as its value needs in UTF-8, and a text as
/// many as its characters.
pub proof fn law_bytes_of_a_text(s: Seq<char>, c: char)
    ensures
        utf8_len(s.push(c)) == utf8_len(s) + (if (c as u32) < 0x80 {
            1int
        } else if (c as u32) < 0x800 {
            2
        } else if (c as u32) < 0x10000 {
            3
        } else {
            4
        }),
        utf8_len(Seq::empty()) == 0,
{
    assert(s.push(c).drop_last() =~= s);
}

/// A device is a Pro Controller by its vendor and its product, in either of
/// the two forms that USB and Bluetooth use.
pub proof fn law_names_of_devices(lower: Seq<char>)
    ensures
        ({
            let vendor = text::has_infix(lower, "vid_057e"@) || text::has_infix(
                lower,
                "vid&0002057e"@,
            );
            let product = text::has_infix(lower, "pid_2009"@) || text::has_infix(
                lower,
                "pid&2009"@,
            );
            names_pro_controller(lower) == (vendor && product)
        }),
{
}

/// A controller is hidden before the program is let through, and hiding is
/// switched on last; without a controller or a program that step is left out.
pub proof fn law_order_of_hiding(id: Seq<char>, exe: Seq<char>)
    requires
        exe.len() > 0,
    ensures
        ({
            let all = setup_steps(Some(id), exe);
            let none = setup_steps(None, exe);
            let bare = setup_steps(None, Seq::empty());
            &&& all.len() == 3
            &&& all[0] == HideStepModel::AddSession(id)
            &&& all[1] == HideStepModel::Allow(exe)
            &&& all[2] == HideStepModel::SetActive(true)
            &&& none.len() == 2 && none[0] == HideStepModel::Allow(exe) && none[1]
                == HideStepModel::SetActive(true)
            &&& bare.len() == 1 && bare[0] == HideStepModel::SetActive(true)
        }),
{
}

/// A path is shown where a device was found, and otherwise why it was not.
pub proof fn law_shown_paths(path: String, e: String)
    ensures
        shown_path(Ok(Some(path))) == path@,
        shown_path(Ok(None)) == "Not found"@,
        shown_path(Err(e)) == e@,
        has_path(Ok(Some(path))) == (path@.len() > 0),
        !has_path(Ok(None)) && !has_path(Err(e)),
{
}

proof fn lemma_utf8_len_from_the_front(s: Seq<char>)
    requires
        s.len() > 0,
    ensures
        utf8_len(s) == utf8_width(s[0]) + utf8_len(s.skip(1)),
    decreases s.len(),
{
    if s.len() == 1 {
        assert(s.drop_last() =~= Seq::<char>::empty());
        assert(s.skip(1) =~= Seq::<char>::empty());
        assert(utf8_len(s.drop_last()) == 0);
    } else {
        let front = s.drop_last();
        lemma_utf8_len_from_the_front(front);
        assert(front.skip(1) =~= s.skip(1).drop_last());
    }
}

/// The bytes of the first characters of a text are those characters again.
pub proof fn law_characters_of_bytes(s: Seq<char>, k: int)
    requires
        0 <= k <= s.len(),
    ensures
        utf8_len(s.take(k)) >= k,
        chars_in_bytes(s, utf8_len(s.take(k))) == Some(k),
    decreases k,
{
    if k == 0 {
        assert(s.take(0) =~= Seq::<char>::empty());
    } else {
        let rest = s.skip(1);
        let head = s.take(k);
        law_characters_of_bytes(rest, k - 1);
        lemma_utf8_len_from_the_front(head);
        assert(head.skip(1) =~= rest.take(k - 1));
        assert(head[0] == s[0]);
    }
}

/// Where a path begins with the root of its volume, as many bytes as the root
/// has are left out of it, whatever characters these are.
pub proof fn law_paths_below_a_volume(
    stripped: Seq<char>,
    vol_root: Seq<char>,
    nt_volume: Seq<char>,
    k: int,
)
    requires
        0 <= k <= stripped.len(),
        utf8_len(stripped.take(k)) == utf8_len(vol_root),
    ensures
        nt_path_of(stripped, vol_root, nt_volume, true) == nt_volume + "\\"@ + stripped.skip(k),
        nt_path_of(stripped, vol_root, nt_volume, false) == nt_volume + "\\"@ + stripped,
{
    law_characters_of_bytes(stripped, k);
}

/// A list is read unit by unit: one that is not zero goes to the string that
/// has begun, a zero ends that string, and a second zero in a row ends the
/// list. A string that is not ended is left out.
pub proof fn law_list_unit_by_unit(unit: u16, rest: Seq<u16>, current: Seq<u16>, was_zero: bool)
    requires
        unit != 0,
    ensures
        strings_in(seq![unit] + rest, current, was_zero) == strings_in(
            rest,
            current.push(unit),
            false,
        ),
        current.len() > 0 ==> strings_in(seq![0u16] + rest, current, false) == seq![
            text::utf16_text(current),
        ] + strings_in(rest, Seq::empty(), true),
        strings_in(seq![0u16] + rest, Seq::empty(), false) == strings_in(rest, Seq::empty(), true),
        strings_in(seq![0u16] + rest, current, true).len() == 0,
        strings_in(Seq::empty(), current, was_zero).len() == 0,
{
    let a = seq![unit] + rest;
    let b = seq![0u16] + rest;
    assert(a[0] == unit && a.skip(1) =~= rest);
    assert(b[0] == 0 && b.skip(1) =~= rest);
}

/// A text is on a list if and only if one of the entries is the same in small
/// letters, so a list lists what its parts list.
pub proof fn law_what_is_listed(a: Seq<Seq<char>>, b: Seq<Seq<char>>, lower: Seq<char>)
    ensures
        !lists_lower(Seq::empty(), lower),
        lists_lower(seq![lower], text::lowercase(lower)),
        lists_lower(a + b, lower) == (lists_lower(a, lower) || lists_lower(b, lower)),
        a.len() == 1 ==> lists_lower(a, lower) == (text::lowercase(a[0]) == lower),
{
    let all = a + b;
    assert(text::lowercase(seq![lower][0]) == text::lowercase(lower));
    if lists_lower(a, lower) {
        let i = choose|i: int| 0 <= i < a.len() && text::lowercase(#[trigger] a[i]) == lower;
        assert(all[i] == a[i]);
    }
    if lists_lower(b, lower) {
        let i = choose|i: int| 0 <= i < b.len() && text::lowercase(#[trigger] b[i]) == lower;
        assert(all[a.len() + i] == b[i]);
    }
    if lists_lower(all, lower) {
        let i = choose|i: int| 0 <= i < all.len() && text::lowercase(#[trigger] all[i]) == lower;
        if i < a.len() {
            assert(text::lowercase(a[i]) == lower);
        } else {
            assert(text::lowercase(b[i - a.len()]) == lower);
        }
    }
}

} // verus!
