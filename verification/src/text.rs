//! Text as sequences of characters: searching, trimming, splitting, numbers
//! and UTF-16.

use vstd::prelude::*;

verus! {

/// `String::push` appends one character at the end of the string.
pub assume_specification[ String::push ](s: &mut String, c: char)
    ensures
        final(s)@ == old(s)@.push(c),
;

/// Whether `x` is a Unicode scalar value.
pub open spec fn is_scalar(x: u32) -> bool {
    x <= 0xD7FF || 0xE000 <= x <= 0x10FFFF
}

/// `char::from_u32` gives the character with that scalar value, and nothing
/// for a number that is no scalar value.
pub assume_specification[ char::from_u32 ](i: u32) -> (r: Option<char>)
    ensures
        r == (if is_scalar(i) { Some(i as char) } else { None }),
;

// ---------------------------------------------------------------------------
// Conversions
// ---------------------------------------------------------------------------

/// The characters of a string, in order.
pub fn chars_of(s: &str) -> (r: Vec<char>)
    ensures
        r@ == s@,
{
    let mut out: Vec<char> = Vec::new();
    for c in it: s.chars()
        invariant
            out@ == it.seq().take(it.index() as int),
            it.seq() == s@,
    {
        out.push(c);
    }
    out
}

/// The string that holds the given characters.
pub fn string_of(v: &[char]) -> (r: String)
    ensures
        r@ == v@,
{
    let mut out: String = String::new();
    let mut i: usize = 0;
    while i < v.len()
        invariant
            i <= v@.len(),
            out@ == v@.take(i as int),
        decreases v@.len() - i,
    {
        out.push(v[i]);
        i += 1;
    }
    out
}

/// Whether two strings hold the same characters.
pub fn same(a: &str, b: &str) -> (r: bool)
    ensures
        r == (a@ == b@),
{
    let x: String = a.to_owned();
    let y: String = b.to_owned();
    x == y
}

/// A copy of a part of a character slice.
pub fn slice_chars(s: &[char], from: usize, to: usize) -> (r: Vec<char>)
    requires
        from <= to <= s@.len(),
    ensures
        r@ == s@.subrange(from as int, to as int),
{
    let mut out: Vec<char> = Vec::new();
    let mut i: usize = from;
    while i < to
        invariant
            from <= i <= to <= s@.len(),
            out@ == s@.subrange(from as int, i as int),
        decreases to - i,
    {
        out.push(s[i]);
        i += 1;
    }
    out
}

// ---------------------------------------------------------------------------
// Searching
// ---------------------------------------------------------------------------

/// `p` stands in `s` at position `i`.
pub open spec fn occurs_at(s: Seq<char>, p: Seq<char>, i: int) -> bool {
    0 <= i && i + p.len() <= s.len() && s.subrange(i, i + p.len()) == p
}

/// `s` begins with `p`.
pub open spec fn has_prefix(s: Seq<char>, p: Seq<char>) -> bool {
    occurs_at(s, p, 0)
}

/// `s` ends with `p`.
pub open spec fn has_suffix(s: Seq<char>, p: Seq<char>) -> bool {
    occurs_at(s, p, s.len() - p.len())
}

/// `p` stands somewhere in `s`.
pub open spec fn has_infix(s: Seq<char>, p: Seq<char>) -> bool {
    exists|i: int| occurs_at(s, p, i)
}

/// The number of characters before the first `c` in `s`; all of them where
/// `s` holds no `c`.
pub open spec fn before(s: Seq<char>, c: char) -> int
    decreases s.len(),
{
    if s.len() == 0 || s[0] == c {
        0
    } else {
        1 + before(s.drop_first(), c)
    }
}

pub proof fn lemma_before(s: Seq<char>, c: char)
    ensures
        0 <= before(s, c) <= s.len(),
        before(s, c) < s.len() ==> s[before(s, c)] == c,
        forall|j: int| 0 <= j < before(s, c) ==> s[j] != c,
    decreases s.len(),
{
    if s.len() != 0 && s[0] != c {
        let t = s.drop_first();
        lemma_before(t, c);
        assert forall|j: int| 0 <= j < before(s, c) implies s[j] != c by {
            if j > 0 {
                assert(t[j - 1] != c);
            }
        }
    }
}

/// `before` is the only position with these properties.
pub proof fn lemma_before_is(s: Seq<char>, c: char, i: int)
    requires
        0 <= i <= s.len(),
        i < s.len() ==> s[i] == c,
        forall|j: int| 0 <= j < i ==> s[j] != c,
    ensures
        before(s, c) == i,
{
    lemma_before(s, c);
    let b = before(s, c);
    if b < i {
        assert(s[b] != c);
    }
}

/// Whether `p` stands in `s` at position `i`.
pub fn is_at(s: &[char], p: &[char], i: usize) -> (r: bool)
    ensures
        r == occurs_at(s@, p@, i as int),
{
    if i > s.len() || p.len() > s.len() - i {
        return false;
    }
    let mut j: usize = 0;
    while j < p.len()
        invariant
            i + p.len() <= s.len(),
            j <= p@.len(),
            forall|k: int| 0 <= k < j ==> s@[i + k] == p@[k],
        decreases p@.len() - j,
    {
        if s[i + j] != p[j] {
            assert(s@.subrange(i as int, i + p@.len())[j as int] != p@[j as int]);
            return false;
        }
        j += 1;
    }
    assert(s@.subrange(i as int, i + p@.len()) =~= p@);
    true
}

/// Whether `s` begins with `p`.
pub fn starts_with(s: &[char], p: &[char]) -> (r: bool)
    ensures
        r == has_prefix(s@, p@),
{
    is_at(s, p, 0)
}

/// Whether `s` ends with `p`.
pub fn ends_with(s: &[char], p: &[char]) -> (r: bool)
    ensures
        r == has_suffix(s@, p@),
{
    if p.len() > s.len() {
        return false;
    }
    is_at(s, p, s.len() - p.len())
}

/// The first position at which `p` stands in `s`.
pub fn find(s: &[char], p: &[char]) -> (r: Option<usize>)
    ensures
        match r {
            Some(i) => occurs_at(s@, p@, i as int) && forall|j: int|
                0 <= j < i ==> !occurs_at(s@, p@, j),
            None => !has_infix(s@, p@),
        },
{
    let mut i: usize = 0;
    while i < s.len()
        invariant
            i <= s@.len(),
            forall|j: int| 0 <= j < i ==> !occurs_at(s@, p@, j),
        decreases s@.len() - i,
    {
        if is_at(s, p, i) {
            return Some(i);
        }
        i += 1;
    }
    if is_at(s, p, i) {
        return Some(i);
    }
    assert forall|j: int| !occurs_at(s@, p@, j) by {
        if j > s@.len() {
            assert(!occurs_at(s@, p@, j));
        }
    }
    None
}

/// The first position at which `p` stands in `s`.
pub open spec fn first_place(s: Seq<char>, p: Seq<char>) -> Option<int>
    decreases s.len(),
{
    if has_prefix(s, p) {
        Some(0)
    } else if s.len() == 0 {
        None
    } else {
        match first_place(s.drop_first(), p) {
            Some(i) => Some(i + 1),
            None => None,
        }
    }
}

/// The first position at which `p` stands in `s` is where it stands and does
/// not stand before.
pub proof fn lemma_first_place(s: Seq<char>, p: Seq<char>, at: Option<int>)
    requires
        match at {
            Some(i) => occurs_at(s, p, i) && forall|j: int| 0 <= j < i ==> !occurs_at(s, p, j),
            None => !has_infix(s, p),
        },
    ensures
        first_place(s, p) == at,
    decreases s.len(),
{
    match at {
        Some(i) => {
            if i > 0 {
                let rest = s.drop_first();
                assert(!occurs_at(s, p, 0));
                assert(rest.subrange(i - 1, i - 1 + p.len()) =~= s.subrange(i, i + p.len()));
                assert forall|j: int| 0 <= j < i - 1 implies !occurs_at(rest, p, j) by {
                    assert(!occurs_at(s, p, j + 1));
                    if j + p.len() <= rest.len() {
                        assert(rest.subrange(j, j + p.len()) =~= s.subrange(
                            j + 1,
                            j + 1 + p.len(),
                        ));
                    }
                }
                lemma_first_place(rest, p, Some(i - 1));
            }
        },
        None => {
            assert(!occurs_at(s, p, 0));
            if s.len() > 0 {
                let rest = s.drop_first();
                assert(!has_infix(rest, p)) by {
                    if has_infix(rest, p) {
                        let j = choose|j: int| occurs_at(rest, p, j);
                        assert(rest.subrange(j, j + p.len()) =~= s.subrange(
                            j + 1,
                            j + 1 + p.len(),
                        ));
                        assert(occurs_at(s, p, j + 1));
                    }
                }
                lemma_first_place(rest, p, None);
            }
        },
    }
}

/// Whether `p` stands somewhere in `s`.
pub fn contains(s: &[char], p: &[char]) -> (r: bool)
    ensures
        r == has_infix(s@, p@),
{
    match find(s, p) {
        Some(_) => true,
        None => false,
    }
}

/// The position of the first `c` in `s`, or the length of `s`.
pub fn position(s: &[char], c: char) -> (r: usize)
    ensures
        r == before(s@, c),
        r <= s@.len(),
{
    let mut i: usize = 0;
    while i < s.len()
        invariant
            i <= s@.len(),
            forall|j: int| 0 <= j < i ==> s@[j] != c,
        decreases s@.len() - i,
    {
        if s[i] == c {
            proof {
                lemma_before_is(s@, c, i as int);
            }
            return i;
        }
        i += 1;
    }
    proof {
        lemma_before_is(s@, c, i as int);
    }
    i
}

// ---------------------------------------------------------------------------
// Trimming and splitting
// ---------------------------------------------------------------------------

/// The characters with the Unicode property White_Space.
pub open spec fn is_space(c: char) -> bool {
    let x = c as u32;
    ||| 0x09 <= x <= 0x0D
    ||| x == 0x20
    ||| x == 0x85
    ||| x == 0xA0
    ||| x == 0x1680
    ||| 0x2000 <= x <= 0x200A
    ||| x == 0x2028
    ||| x == 0x2029
    ||| x == 0x202F
    ||| x == 0x205F
    ||| x == 0x3000
}

/// Whether a character is white space.
pub fn is_whitespace(c: char) -> (r: bool)
    ensures
        r == is_space(c),
{
    let x: u32 = c as u32;
    (0x09 <= x && x <= 0x0D) || x == 0x20 || x == 0x85 || x == 0xA0 || x == 0x1680 || (0x2000
        <= x && x <= 0x200A) || x == 0x2028 || x == 0x2029 || x == 0x202F || x == 0x205F || x
        == 0x3000
}

/// `s` without the white space at its start.
pub open spec fn trimmed_start(s: Seq<char>) -> Seq<char>
    decreases s.len(),
{
    if s.len() > 0 && is_space(s[0]) {
        trimmed_start(s.drop_first())
    } else {
        s
    }
}

/// `s` without the white space at its end.
pub open spec fn trimmed_end(s: Seq<char>) -> Seq<char>
    decreases s.len(),
{
    if s.len() > 0 && is_space(s.last()) {
        trimmed_end(s.drop_last())
    } else {
        s
    }
}

/// `s` without the white space at either end.
pub open spec fn trimmed(s: Seq<char>) -> Seq<char> {
    trimmed_end(trimmed_start(s))
}

/// `s` without the white space at either end.
pub fn trim(s: &[char]) -> (r: Vec<char>)
    ensures
        r@ == trimmed(s@),
{
    let mut from: usize = 0;
    assert(s@.skip(0) =~= s@);
    while from < s.len() && is_whitespace(s[from])
        invariant
            from <= s@.len(),
            trimmed_start(s@.skip(from as int)) == trimmed_start(s@),
        decreases s@.len() - from,
    {
        assert(s@.skip(from as int).drop_first() =~= s@.skip(from + 1));
        from += 1;
    }
    let ghost rest = s@.skip(from as int);
    assert(trimmed_start(s@) == rest);
    let mut to: usize = s.len();
    while to > from && is_whitespace(s[to - 1])
        invariant
            from <= to <= s@.len(),
            trimmed_end(s@.subrange(from as int, to as int)) == trimmed_end(rest),
        decreases to - from,
    {
        assert(s@.subrange(from as int, to as int).drop_last() =~= s@.subrange(
            from as int,
            to - 1,
        ));
        to -= 1;
    }
    slice_chars(s, from, to)
}

/// `s` without the run of `c` at its end.
pub open spec fn without_trailing(s: Seq<char>, c: char) -> Seq<char>
    decreases s.len(),
{
    if s.len() > 0 && s.last() == c {
        without_trailing(s.drop_last(), c)
    } else {
        s
    }
}

/// `s` without the run of `c` at its end.
pub fn trim_end_matches(s: &[char], c: char) -> (r: Vec<char>)
    ensures
        r@ == without_trailing(s@, c),
{
    let mut to: usize = s.len();
    assert(s@.take(to as int) =~= s@);
    while to > 0 && s[to - 1] == c
        invariant
            to <= s@.len(),
            without_trailing(s@.take(to as int), c) == without_trailing(s@, c),
        decreases to,
    {
        assert(s@.take(to as int).drop_last() =~= s@.take(to - 1));
        to -= 1;
    }
    assert(s@.take(to as int) =~= s@.subrange(0, to as int));
    slice_chars(s, 0, to)
}

/// A line without the carriage return before its line feed.
pub open spec fn without_cr(s: Seq<char>) -> Seq<char> {
    if s.len() > 0 && s.last() == '\r' {
        s.drop_last()
    } else {
        s
    }
}

/// The lines of a text. A line ends with a line feed or with a carriage
/// return and a line feed, which are not part of it; the last may have none.
pub open spec fn lines_of(s: Seq<char>) -> Seq<Seq<char>>
    decreases s.len(),
    via lines_of_decreases
{
    if s.len() == 0 {
        Seq::empty()
    } else if before(s, '\n') >= s.len() {
        seq![s]
    } else {
        seq![without_cr(s.take(before(s, '\n')))] + lines_of(s.skip(before(s, '\n') + 1))
    }
}

#[via_fn]
proof fn lines_of_decreases(s: Seq<char>) {
    lemma_before(s, '\n');
}

/// The lines of a text, as `lines_of` gives them.
pub fn lines(s: &[char]) -> (r: Vec<Vec<char>>)
    ensures
        r@.len() == lines_of(s@).len(),
        forall|i: int| 0 <= i < r@.len() ==> (#[trigger] r@[i])@ == lines_of(s@)[i],
{
    let mut out: Vec<Vec<char>> = Vec::new();
    let mut from: usize = 0;
    let ghost all = lines_of(s@);
    assert(s@.skip(0) =~= s@);
    assert(Seq::<Seq<char>>::empty() + all =~= all);
    let ghost mut done: Seq<Seq<char>> = Seq::empty();
    while from < s.len()
        invariant
            from <= s@.len(),
            all == lines_of(s@),
            all == done + lines_of(s@.skip(from as int)),
            out@.len() == done.len(),
            forall|i: int| 0 <= i < out@.len() ==> (#[trigger] out@[i])@ == done[i],
        decreases s@.len() - from,
    {
        let ghost rest = s@.skip(from as int);
        let mut to: usize = from;
        while to < s.len() && s[to] != '\n'
            invariant
                from <= to <= s@.len(),
                forall|j: int| from <= j < to ==> s@[j] != '\n',
            decreases s@.len() - to,
        {
            to += 1;
        }
        proof {
            assert forall|j: int| 0 <= j < to - from implies rest[j] != '\n' by {
                assert(rest[j] == s@[from + j]);
            }
            lemma_before_is(rest, '\n', to - from);
        }
        if to == s.len() {
            assert(s@.subrange(from as int, to as int) =~= rest);
            let ghost was = done;
            out.push(slice_chars(s, from, to));
            proof {
                done = done.push(rest);
                assert(lines_of(rest) =~= seq![rest]);
                assert(s@.skip(to as int) =~= Seq::empty());
                assert(lines_of(s@.skip(to as int)) =~= Seq::empty());
                assert(all =~= done + lines_of(s@.skip(to as int)));
            }
            from = to;
        } else {
            let end: usize = if to > from && s[to - 1] == '\r' { to - 1 } else { to };
            let ghost line = without_cr(rest.take(to - from));
            assert(rest.take(to - from) =~= s@.subrange(from as int, to as int));
            assert(s@.subrange(from as int, end as int) =~= line);
            out.push(slice_chars(s, from, end));
            proof {
                done = done.push(line);
                assert(rest.skip(to - from + 1) =~= s@.skip(to + 1));
                assert(all =~= done + lines_of(s@.skip(to + 1)));
            }
            from = to + 1;
        }
    }
    proof {
        assert(s@.skip(from as int) =~= Seq::empty());
        assert(all =~= done);
    }
    out
}

// ---------------------------------------------------------------------------
// Numbers
// ---------------------------------------------------------------------------

/// A decimal digit.
pub open spec fn is_digit(c: char) -> bool {
    '0' <= c && c <= '9'
}

/// Every character is a decimal digit.
pub open spec fn all_digits(s: Seq<char>) -> bool {
    forall|i: int| 0 <= i < s.len() ==> is_digit(#[trigger] s[i])
}

/// The number that a row of decimal digits stands for.
pub open spec fn digits_value(s: Seq<char>) -> int
    decreases s.len(),
{
    if s.len() == 0 {
        0
    } else {
        10 * digits_value(s.drop_last()) + (s.last() as u32 - 48)
    }
}

/// The row of digits behind an optional sign.
pub open spec fn unsigned_part(s: Seq<char>) -> Seq<char> {
    if s.len() > 0 && (s[0] == '+' || s[0] == '-') {
        s.drop_first()
    } else {
        s
    }
}

/// What a text stands for as a decimal integer: an optional sign and at least
/// one digit, nothing else, with a value from `lo` to `hi`.
pub open spec fn parsed_int(s: Seq<char>, lo: int, hi: int) -> Option<int> {
    let body = unsigned_part(s);
    let v = if s.len() > 0 && s[0] == '-' {
        -digits_value(body)
    } else {
        digits_value(body)
    };
    if body.len() > 0 && all_digits(body) && lo <= v <= hi {
        Some(v)
    } else {
        None
    }
}

proof fn lemma_digits_value_grows(s: Seq<char>, n: int)
    requires
        all_digits(s),
        0 <= n <= s.len(),
    ensures
        0 <= digits_value(s.take(n)) <= digits_value(s),
    decreases s.len() - n, n,
{
    if n < s.len() {
        lemma_digits_value_grows(s, n + 1);
        let t = s.take(n + 1);
        assert(t.drop_last() =~= s.take(n));
        assert(is_digit(s[n]));
        assert(digits_value(t) == 10 * digits_value(s.take(n)) + (s[n] as u32 - 48));
        lemma_digits_value_pos(s.take(n));
    } else {
        assert(s.take(n) =~= s);
        lemma_digits_value_pos(s);
    }
}

proof fn lemma_digits_value_pos(s: Seq<char>)
    requires
        all_digits(s),
    ensures
        0 <= digits_value(s),
    decreases s.len(),
{
    if s.len() > 0 {
        assert(is_digit(s[s.len() - 1]));
        assert forall|i: int| 0 <= i < s.drop_last().len() implies is_digit(
            #[trigger] s.drop_last()[i],
        ) by {
            assert(is_digit(s[i]));
        }
        lemma_digits_value_pos(s.drop_last());
    }
}

/// The number that a row of decimal digits stands for, where it is at most
/// `limit`. `None` for an empty row, a character that is no digit or a larger
/// number.
fn parse_digits(s: &[char], limit: u64) -> (r: Option<u64>)
    ensures
        r == (if s@.len() > 0 && all_digits(s@) && digits_value(s@) <= limit {
            Some(digits_value(s@) as u64)
        } else {
            None
        }),
{
    if s.len() == 0 {
        return None;
    }
    let mut i: usize = 0;
    while i < s.len()
        invariant
            i <= s@.len(),
            forall|j: int| 0 <= j < i ==> is_digit(#[trigger] s@[j]),
        decreases s@.len() - i,
    {
        if s[i] < '0' || s[i] > '9' {
            assert(!is_digit(s@[i as int]));
            return None;
        }
        i += 1;
    }
    assert(all_digits(s@));
    let mut v: u64 = 0;
    let mut k: usize = 0;
    while k < s.len()
        invariant
            k <= s@.len(),
            all_digits(s@),
            v == digits_value(s@.take(k as int)),
            v <= limit,
        decreases s@.len() - k,
    {
        assert(is_digit(s@[k as int]));
        assert(s@.take(k + 1).drop_last() =~= s@.take(k as int));
        assert(digits_value(s@.take(k + 1)) == 10 * v + (s@[k as int] as u32 - 48));
        proof {
            lemma_digits_value_grows(s@, k + 1);
        }
        let d: u64 = (s[k] as u32 - 48) as u64;
        if v > (u64::MAX - d) / 10 || 10 * v + d > limit {
            return None;
        }
        v = 10 * v + d;
        k += 1;
    }
    assert(s@.take(k as int) =~= s@);
    Some(v)
}

/// A 64-bit signed decimal integer.
pub fn parse_i64(s: &[char]) -> (r: Option<i64>)
    ensures
        match parsed_int(s@, i64::MIN as int, i64::MAX as int) {
            Some(v) => r == Some(v as i64),
            None => r is None,
        },
{
    let signed: bool = s.len() > 0 && (s[0] == '+' || s[0] == '-');
    let negative: bool = s.len() > 0 && s[0] == '-';
    let from: usize = if signed { 1 } else { 0 };
    let body: Vec<char> = slice_chars(s, from, s.len());
    assert(body@ =~= unsigned_part(s@));
    proof {
        if all_digits(body@) {
            lemma_digits_value_pos(body@);
        }
    }
    if negative {
        match parse_digits(&body, 0x8000_0000_0000_0000) {
            Some(v) => {
                if v == 0x8000_0000_0000_0000 {
                    Some(i64::MIN)
                } else {
                    Some(-(v as i64))
                }
            },
            None => None,
        }
    } else {
        match parse_digits(&body, 0x7FFF_FFFF_FFFF_FFFF) {
            Some(v) => Some(v as i64),
            None => None,
        }
    }
}

/// A 32-bit signed decimal integer.
pub fn parse_i32(s: &[char]) -> (r: Option<i32>)
    ensures
        match parsed_int(s@, i32::MIN as int, i32::MAX as int) {
            Some(v) => r == Some(v as i32),
            None => r is None,
        },
{
    match parse_i64(s) {
        Some(v) => {
            if v >= -0x8000_0000 && v <= 0x7FFF_FFFF {
                Some(v as i32)
            } else {
                None
            }
        },
        None => None,
    }
}

/// The digit for a number below 10.
pub open spec fn digit_char(d: int) -> char {
    (48 + d) as char
}

/// A number in decimal, without leading zeros.
pub open spec fn decimal(n: nat) -> Seq<char>
    decreases n,
{
    if n < 10 {
        seq![digit_char(n as int)]
    } else {
        decimal(n / 10).push(digit_char((n % 10) as int))
    }
}

/// The digit for a number below 10.
fn digit(d: u64) -> (r: char)
    requires
        d < 10,
    ensures
        r == digit_char(d as int),
{
    (48 + d as u8) as char
}

/// Appends a number in decimal.
pub fn push_decimal(out: &mut String, n: u64)
    ensures
        final(out)@ == old(out)@ + decimal(n as nat),
    decreases n,
{
    if n >= 10 {
        push_decimal(out, n / 10);
    }
    out.push(digit(n % 10));
    assert(out@ =~= old(out)@ + decimal(n as nat));
}

/// The upper-case hexadecimal digit for a number below 16.
pub open spec fn hex_char(d: int) -> char {
    if d < 10 {
        (48 + d) as char
    } else {
        (55 + d) as char
    }
}

/// A byte as two upper-case hexadecimal digits.
pub open spec fn hex_pair(b: u8) -> Seq<char> {
    seq![hex_char((b / 16) as int), hex_char((b % 16) as int)]
}

/// The upper-case hexadecimal digit for a number below 16.
fn hex_digit(d: u8) -> (r: char)
    requires
        d < 16,
    ensures
        r == hex_char(d as int),
{
    if d < 10 {
        (48 + d) as char
    } else {
        (55 + d) as char
    }
}

/// Appends a byte as two upper-case hexadecimal digits.
pub fn push_hex(out: &mut String, b: u8)
    ensures
        final(out)@ == old(out)@ + hex_pair(b),
{
    out.push(hex_digit(b / 16));
    out.push(hex_digit(b % 16));
    assert(out@ =~= old(out)@ + hex_pair(b));
}

/// Bytes as pairs of upper-case hexadecimal digits with a separator between
/// them.
pub open spec fn hex_joined(data: Seq<u8>, sep: char) -> Seq<char>
    decreases data.len(),
{
    if data.len() == 0 {
        Seq::empty()
    } else if data.len() == 1 {
        hex_pair(data[0])
    } else {
        hex_joined(data.drop_last(), sep).push(sep) + hex_pair(data.last())
    }
}

/// Bytes as pairs of upper-case hexadecimal digits with a separator between
/// them.
pub fn hex_join(data: &[u8], sep: char) -> (r: String)
    ensures
        r@ == hex_joined(data@, sep),
{
    let mut out: String = String::new();
    let mut i: usize = 0;
    while i < data.len()
        invariant
            i <= data@.len(),
            out@ == hex_joined(data@.take(i as int), sep),
        decreases data@.len() - i,
    {
        let ghost part = data@.take(i + 1);
        assert(part.drop_last() =~= data@.take(i as int));
        if i > 0 {
            out.push(sep);
        }
        push_hex(&mut out, data[i]);
        assert(out@ =~= hex_joined(part, sep));
        i += 1;
    }
    assert(data@.take(i as int) =~= data@);
    out
}

// ---------------------------------------------------------------------------
// Case
// ---------------------------------------------------------------------------

/// Every character is ASCII.
pub open spec fn ascii_only(s: Seq<char>) -> bool {
    forall|i: int| 0 <= i < s.len() ==> (#[trigger] s[i] as u32) < 128
}

/// An ASCII letter in lower case; any other character as it is.
pub open spec fn ascii_lower(c: char) -> char {
    if 'A' <= c && c <= 'Z' {
        (c as u32 + 32) as char
    } else {
        c
    }
}

/// A text with its ASCII letters in lower case.
pub open spec fn ascii_lowered(s: Seq<char>) -> Seq<char> {
    s.map_values(|c: char| ascii_lower(c))
}

/// An ASCII letter in lower case; any other character as it is.
pub fn to_ascii_lower(c: char) -> (r: char)
    ensures
        r == ascii_lower(c),
{
    if 'A' <= c && c <= 'Z' {
        (c as u8 + 32) as char
    } else {
        c
    }
}

/// A text in lower case, as Unicode defines it.
pub uninterp spec fn lowercase(s: Seq<char>) -> Seq<char>;

/// Calls `str::to_lowercase`. The result is named `lowercase`; of a text of
/// ASCII characters it is claimed that its letters, and nothing else, change
/// to lower case.
#[verifier::external_body]
pub(crate) fn to_lowercase(s: &str) -> (r: String)
    ensures
        r@ == lowercase(s@),
        ascii_only(s@) ==> r@ == ascii_lowered(s@),
{
    s.to_lowercase()
}

// ---------------------------------------------------------------------------
// UTF-16
// ---------------------------------------------------------------------------

/// The UTF-16 code units of a character.
pub open spec fn units_of(c: char) -> Seq<u16> {
    let x = c as u32;
    if x < 0x10000 {
        seq![x as u16]
    } else {
        seq![(0xD800 + (x - 0x10000) / 0x400) as u16, (0xDC00 + (x - 0x10000) % 0x400) as u16]
    }
}

/// The UTF-16 code units of a text.
pub open spec fn utf16(s: Seq<char>) -> Seq<u16>
    decreases s.len(),
{
    if s.len() == 0 {
        Seq::empty()
    } else {
        units_of(s[0]) + utf16(s.drop_first())
    }
}

pub open spec fn is_high(u: u16) -> bool {
    0xD800 <= u <= 0xDBFF
}

pub open spec fn is_low(u: u16) -> bool {
    0xDC00 <= u <= 0xDFFF
}

/// The character of a surrogate pair.
pub open spec fn paired(hi: u16, lo: u16) -> char {
    (0x10000 + (hi - 0xD800) * 0x400 + (lo - 0xDC00)) as char
}

/// The text that UTF-16 code units stand for, with U+FFFD in place of each
/// surrogate that is not part of a pair.
pub open spec fn utf16_text(u: Seq<u16>) -> Seq<char>
    decreases u.len(),
{
    if u.len() == 0 {
        Seq::empty()
    } else if u.len() >= 2 && is_high(u[0]) && is_low(u[1]) {
        seq![paired(u[0], u[1])] + utf16_text(u.skip(2))
    } else if is_high(u[0]) || is_low(u[0]) {
        seq!['\u{FFFD}'] + utf16_text(u.skip(1))
    } else {
        seq![u[0] as char] + utf16_text(u.skip(1))
    }
}

/// Appends the UTF-16 code units of a text.
pub fn push_utf16(out: &mut Vec<u16>, s: &[char])
    ensures
        final(out)@ == old(out)@ + utf16(s@),
{
    let mut i: usize = 0;
    assert(s@.skip(0) =~= s@);
    while i < s.len()
        invariant
            i <= s@.len(),
            out@ + utf16(s@.skip(i as int)) == old(out)@ + utf16(s@),
        decreases s@.len() - i,
    {
        let ghost was = out@;
        let ghost rest = s@.skip(i as int);
        let x: u32 = s[i] as u32;
        if x < 0x10000 {
            out.push(x as u16);
        } else {
            out.push((0xD800 + (x - 0x10000) / 0x400) as u16);
            out.push((0xDC00 + (x - 0x10000) % 0x400) as u16);
        }
        assert(out@ =~= was + units_of(s@[i as int]));
        assert(rest.drop_first() =~= s@.skip(i + 1));
        assert(out@ + utf16(s@.skip(i + 1)) =~= was + utf16(rest));
        i += 1;
    }
    assert(utf16(s@.skip(i as int)) =~= Seq::empty());
    assert(out@ =~= old(out)@ + utf16(s@));
}

/// The text that UTF-16 code units stand for, with U+FFFD in place of each
/// surrogate that is not part of a pair.
pub fn from_utf16(u: &[u16]) -> (r: String)
    ensures
        r@ == utf16_text(u@),
{
    let mut out: String = String::new();
    let mut i: usize = 0;
    assert(u@.skip(0) =~= u@);
    while i < u.len()
        invariant
            i <= u@.len(),
            out@ + utf16_text(u@.skip(i as int)) == utf16_text(u@),
        decreases u@.len() - i,
    {
        let ghost was = out@;
        let ghost rest = u@.skip(i as int);
        let a: u16 = u[i];
        let b: u16 = if i + 1 < u.len() { u[i + 1] } else { 0 };
        if 0xD800 <= a && a <= 0xDBFF && 0xDC00 <= b && b <= 0xDFFF {
            let x: u32 = 0x10000 + (a as u32 - 0xD800) * 0x400 + (b as u32 - 0xDC00);
            match char::from_u32(x) {
                Some(c) => out.push(c),
                None => {},
            }
            assert(rest.skip(2) =~= u@.skip(i + 2));
            assert(out@ + utf16_text(u@.skip(i + 2)) =~= was + utf16_text(rest));
            i += 2;
        } else {
            if 0xD800 <= a && a <= 0xDFFF {
                out.push('\u{FFFD}');
            } else {
                match char::from_u32(a as u32) {
                    Some(c) => out.push(c),
                    None => {},
                }
            }
            assert(rest.skip(1) =~= u@.skip(i + 1));
            assert(out@ + utf16_text(u@.skip(i + 1)) =~= was + utf16_text(rest));
            i += 1;
        }
    }
    assert(utf16_text(u@.skip(i as int)) =~= Seq::empty());
    assert(out@ =~= utf16_text(u@));
    out
}

proof fn lemma_units_of_back(c: char, rest: Seq<u16>)
    ensures
        utf16_text(units_of(c) + rest) == seq![c] + utf16_text(rest),
{
    let x = c as u32;
    let u = units_of(c) + rest;
    if x < 0x10000 {
        assert(u.skip(1) =~= rest);
        assert(u[0] == x as u16);
        assert(!is_high(u[0]) && !is_low(u[0]));
        assert(u[0] as char == c);
    } else {
        assert(u.skip(2) =~= rest);
        assert(is_high(u[0]) && is_low(u[1]));
        assert(paired(u[0], u[1]) == c);
    }
}

/// Decoding the UTF-16 code units of a text gives the text back.
pub proof fn lemma_utf16_round_trip(s: Seq<char>)
    ensures
        utf16_text(utf16(s)) == s,
    decreases s.len(),
{
    if s.len() > 0 {
        lemma_utf16_round_trip(s.drop_first());
        lemma_units_of_back(s[0], utf16(s.drop_first()));
        assert(seq![s[0]] + s.drop_first() =~= s);
    }
}

// ---------------------------------------------------------------------------
// Laws
// ---------------------------------------------------------------------------

/// A text begins with what it was put together from in front, ends with what
/// came last, and holds what came in between.
pub proof fn law_parts_of_a_text(a: Seq<char>, b: Seq<char>, c: Seq<char>)
    ensures
        has_prefix(a + b, a),
        has_suffix(a + b, b),
        has_infix(a + b + c, b),
{
    assert((a + b).subrange(0, a.len() as int) =~= a);
    assert((a + b).subrange(a.len() as int, (a + b).len() as int) =~= b);
    let all = a + b + c;
    assert(all.subrange(a.len() as int, (a.len() + b.len()) as int) =~= b);
    assert(occurs_at(all, b, a.len() as int));
}

/// What begins with a text, ends with it or holds it can be put together from
/// it.
pub proof fn law_texts_can_be_taken_apart(s: Seq<char>, p: Seq<char>)
    ensures
        has_prefix(s, p) ==> s.len() >= p.len() && s == p + s.skip(p.len() as int),
        has_suffix(s, p) ==> s.len() >= p.len() && s == s.take(s.len() - p.len()) + p,
        has_infix(s, p) ==> exists|i: int|
            0 <= i <= s.len() - p.len() && s == #[trigger] s.take(i) + p + s.skip(i + p.len()),
{
    if has_prefix(s, p) {
        assert(s.subrange(0, p.len() as int) == p);
        assert forall|i: int| 0 <= i < p.len() implies s[i] == p[i] by {
            assert(s.subrange(0, p.len() as int)[i] == s[i]);
        }
        assert(s =~= p + s.skip(p.len() as int));
    }
    if has_suffix(s, p) {
        let at = s.len() - p.len();
        assert forall|i: int| 0 <= i < p.len() implies s[at + i] == p[i] by {
            assert(s.subrange(at, at + p.len())[i] == s[at + i]);
        }
        assert(s =~= s.take(at) + p);
    }
    if has_infix(s, p) {
        let at = choose|i: int| occurs_at(s, p, i);
        assert forall|i: int| 0 <= i < p.len() implies s[at + i] == p[i] by {
            assert(s.subrange(at, at + p.len())[i] == s[at + i]);
        }
        assert(s =~= s.take(at) + p + s.skip(at + p.len()));
    }
}

/// What comes before a character is all that stands in front of its first
/// occurrence, or everything.
pub proof fn law_before_a_character(head: Seq<char>, c: char, tail: Seq<char>)
    requires
        !head.contains(c),
    ensures
        before(head.push(c) + tail, c) == head.len(),
        before(head, c) == head.len(),
{
    let s = head.push(c) + tail;
    assert forall|j: int| 0 <= j < head.len() implies s[j] != c by {
        assert(s[j] == head[j]);
        assert(head.contains(head[j]));
    }
    assert(s[head.len() as int] == c);
    lemma_before_is(s, c, head.len() as int);
    assert forall|j: int| 0 <= j < head.len() implies head[j] != c by {
        assert(head.contains(head[j]));
    }
    lemma_before_is(head, c, head.len() as int);
}

/// A line ends at a line feed, without it and without a carriage return before
/// it; a text without a line feed is one line, and an empty one is none.
pub proof fn law_lines(line: Seq<char>, rest: Seq<char>)
    requires
        !line.contains('\n'),
    ensures
        lines_of(Seq::empty()).len() == 0,
        line.len() > 0 ==> lines_of(line) == seq![line],
        lines_of(line.push('\n') + rest) == seq![
            if line.len() > 0 && line.last() == '\r' {
                line.drop_last()
            } else {
                line
            },
        ] + lines_of(rest),
{
    law_before_a_character(line, '\n', rest);
    let s = line.push('\n') + rest;
    assert(s.take(line.len() as int) =~= line);
    assert(s.skip(line.len() as int + 1) =~= rest);
}

proof fn lemma_trimmed_start(s: Seq<char>) -> (n: int)
    ensures
        0 <= n <= s.len(),
        trimmed_start(s) == s.skip(n),
        forall|i: int| 0 <= i < n ==> is_space(#[trigger] s[i]),
        n < s.len() ==> !is_space(s[n]),
    decreases s.len(),
{
    if s.len() > 0 && is_space(s[0]) {
        let rest = s.drop_first();
        let n = lemma_trimmed_start(rest);
        assert(rest.skip(n) =~= s.skip(n + 1));
        assert forall|i: int| 0 <= i < n + 1 implies is_space(#[trigger] s[i]) by {
            if i > 0 {
                assert(rest[i - 1] == s[i]);
            }
        }
        if n < rest.len() {
            assert(rest[n] == s[n + 1]);
        }
        n + 1
    } else {
        assert(s.skip(0) =~= s);
        0
    }
}

proof fn lemma_trimmed_end(s: Seq<char>) -> (n: int)
    ensures
        0 <= n <= s.len(),
        trimmed_end(s) == s.take(n),
        forall|i: int| n <= i < s.len() ==> is_space(#[trigger] s[i]),
        n > 0 ==> !is_space(s[n - 1]),
    decreases s.len(),
{
    if s.len() > 0 && is_space(s.last()) {
        let rest = s.drop_last();
        let n = lemma_trimmed_end(rest);
        assert(rest.take(n) =~= s.take(n));
        assert forall|i: int| n <= i < s.len() implies is_space(#[trigger] s[i]) by {
            if i < rest.len() {
                assert(rest[i] == s[i]);
            }
        }
        n
    } else {
        assert(s.take(s.len() as int) =~= s);
        s.len() as int
    }
}

/// A trimmed text neither begins nor ends with white space, and nothing but
/// white space was taken off it at either end.
pub proof fn law_trimming(s: Seq<char>)
    ensures
        ({
            let t = trimmed(s);
            &&& t.len() > 0 ==> !is_space(t[0]) && !is_space(t.last())
            &&& exists|a: int, b: int|
                0 <= a <= b <= s.len() && t == #[trigger] s.subrange(a, b) && (forall|i: int|
                    0 <= i < a ==> is_space(#[trigger] s[i])) && (forall|i: int|
                    b <= i < s.len() ==> is_space(#[trigger] s[i]))
        }),
{
    let a = lemma_trimmed_start(s);
    let u = s.skip(a);
    let n = lemma_trimmed_end(u);
    let t = trimmed(s);
    assert(t =~= s.subrange(a, a + n));
    assert forall|i: int| a + n <= i < s.len() implies is_space(#[trigger] s[i]) by {
        assert(u[i - a] == s[i]);
    }
    if t.len() > 0 {
        assert(t[0] == s[a]);
        assert(t.last() == u[n - 1]);
    }
}

/// The characters that count as white space among the ASCII ones: tabulators,
/// line ends and the space.
pub proof fn law_ascii_white_space(c: char)
    requires
        c as u32 <= 127,
    ensures
        is_space(c) == (c == ' ' || c == '\t' || c == '\n' || c == '\r' || c as u32 == 0x0B || c
            as u32 == 0x0C),
{
}

/// Characters at the end of a text are taken off one by one, and only these.
pub proof fn law_trailing_characters(s: Seq<char>, c: char, other: char)
    requires
        other != c,
    ensures
        without_trailing(s.push(c), c) == without_trailing(s, c),
        without_trailing(s.push(other), c) == s.push(other),
        without_trailing(Seq::empty(), c).len() == 0,
{
    assert(s.push(c).drop_last() =~= s);
}

/// A row of digits counts by tens, from the left to the right.
pub proof fn law_digits_count_by_tens(s: Seq<char>, d: char)
    requires
        '0' <= d <= '9',
    ensures
        digits_value(s.push(d)) == 10 * digits_value(s) + (d as u32 - '0' as u32),
        digits_value(Seq::empty()) == 0,
        is_digit(d),
{
    assert(s.push(d).drop_last() =~= s);
}

/// A number that is written out in decimal is read back as it was, and begins
/// with no zero unless it is zero.
pub proof fn law_decimal_is_read_back(n: nat)
    ensures
        digits_value(decimal(n)) == n,
        all_digits(decimal(n)),
        decimal(n).len() > 0,
        n > 0 ==> decimal(n)[0] != '0',
    decreases n,
{
    if n >= 10 {
        law_decimal_is_read_back(n / 10);
        let front = decimal(n / 10);
        let all = decimal(n);
        assert(all.drop_last() =~= front);
        assert forall|i: int| 0 <= i < all.len() implies is_digit(#[trigger] all[i]) by {
            if i < front.len() {
                assert(all[i] == front[i]);
            }
        }
        assert(all[0] == front[0]);
    } else {
        let all = decimal(n);
        assert(all.drop_last() =~= Seq::<char>::empty());
        assert(digits_value(all.drop_last()) == 0);
    }
}

/// A number may have one sign in front of its digits; without digits, with
/// anything else, or beyond its range there is none.
pub proof fn law_numbers_with_a_sign(digits: Seq<char>, lo: int, hi: int)
    requires
        digits.len() > 0,
        all_digits(digits),
    ensures
        ({
            let v = digits_value(digits);
            let within = |x: int| lo <= x <= hi;
            &&& parsed_int(digits, lo, hi) == (if within(v) { Some(v) } else { None })
            &&& parsed_int(seq!['+'] + digits, lo, hi) == (if within(v) { Some(v) } else { None })
            &&& parsed_int(seq!['-'] + digits, lo, hi) == (if within(-v) { Some(-v) } else { None })
            &&& parsed_int(Seq::empty(), lo, hi) is None
            &&& parsed_int(seq!['-'], lo, hi) is None
        }),
{
    assert(is_digit(digits[0]));
    assert((seq!['+'] + digits).drop_first() =~= digits);
    assert((seq!['-'] + digits).drop_first() =~= digits);
    assert(seq!['-'].drop_first() =~= Seq::<char>::empty());
}

/// A text with anything but digits behind its sign is no number.
pub proof fn law_other_texts_are_no_numbers(s: Seq<char>, i: int, lo: int, hi: int)
    requires
        1 <= i < s.len(),
        !('0' <= s[i] <= '9'),
    ensures
        parsed_int(s, lo, hi) is None,
{
    let body = unsigned_part(s);
    if body == s {
        assert(!is_digit(body[i]));
    } else {
        assert(body[i - 1] == s[i]);
        assert(!is_digit(body[i - 1]));
    }
}

/// A byte is written as its high and its low half, in the digits from 0 to 9
/// and from A to F.
pub proof fn law_hexadecimal_pairs(b: u8)
    ensures
        ({
            let value = |c: char|
                if '0' <= c <= '9' {
                    c as u32 - '0' as u32
                } else {
                    c as u32 - 'A' as u32 + 10
                };
            let p = hex_pair(b);
            &&& p.len() == 2
            &&& ('0' <= p[0] <= '9' || 'A' <= p[0] <= 'F')
            &&& ('0' <= p[1] <= '9' || 'A' <= p[1] <= 'F')
            &&& 16 * value(p[0]) + value(p[1]) == b
        }),
{
}

/// Bytes are written one after another, with a separator between any two.
pub proof fn law_separated_pairs(data: Seq<u8>, next: u8, sep: char)
    ensures
        hex_joined(Seq::empty(), sep).len() == 0,
        hex_joined(seq![next], sep) == hex_pair(next),
        data.len() > 0 ==> hex_joined(data.push(next), sep) == hex_joined(data, sep) + seq![sep]
            + hex_pair(next),
{
    assert(data.push(next).drop_last() =~= data);
    if data.len() > 0 {
        assert(hex_joined(data, sep).push(sep) + hex_pair(next) =~= hex_joined(data, sep)
            + seq![sep] + hex_pair(next));
    }
}

/// The capital letters from A to Z become small ones, and nothing else changes.
pub proof fn law_small_letters(s: Seq<char>, i: int)
    requires
        0 <= i < s.len(),
    ensures
        ascii_lowered(s).len() == s.len(),
        'A' <= s[i] <= 'Z' ==> ascii_lowered(s)[i] as u32 - 'a' as u32 == s[i] as u32 - 'A' as u32,
        !('A' <= s[i] <= 'Z') ==> ascii_lowered(s)[i] == s[i],
{
}

/// A character of the first plane is one code unit; any other is a high and a
/// low surrogate, ten bits in each.
pub proof fn law_code_units(c: char)
    ensures
        ({
            let u = units_of(c);
            let x = c as u32;
            &&& x < 0x10000 ==> u.len() == 1 && u[0] == x
            &&& x >= 0x10000 ==> u.len() == 2 && 0xD800 <= u[0] < 0xDC00 && 0xDC00 <= u[1] < 0xE000
                && x == 0x10000 + 0x400 * (u[0] - 0xD800) + (u[1] - 0xDC00)
        }),
{
}

/// The code units of a text are those of its characters, in order.
pub proof fn law_code_units_in_order(c: char, rest: Seq<char>)
    ensures
        utf16(seq![c] + rest) == units_of(c) + utf16(rest),
        utf16(Seq::empty()).len() == 0,
{
    assert((seq![c] + rest).drop_first() =~= rest);
}

/// A surrogate without its other half is read as the replacement character.
pub proof fn law_lone_surrogates(u: u16, rest: Seq<u16>)
    requires
        0xD800 <= u <= 0xDFFF,
        u < 0xDC00 ==> rest.len() == 0 || !(0xDC00 <= rest[0] <= 0xDFFF),
    ensures
        utf16_text(seq![u] + rest) == seq!['\u{FFFD}'] + utf16_text(rest),
{
    let all = seq![u] + rest;
    assert(all.skip(1) =~= rest);
    if all.len() >= 2 {
        assert(all[1] == rest[0]);
    }
}

} // verus!
