//! Time stamps: the local date and time as plain values, and the archive file
//! names, creation times and record ids made from them.
use vstd::prelude::*;
use chrono::{Datelike, Timelike};
use crate::text::{chars_of, string_from_chars};

verus! {

/// A local date and time, with its offset from UTC.
#[derive(Clone, Copy, Debug, PartialEq, Eq)]
pub struct LocalTime {
    pub year: i32,
    pub month: u32,
    pub day: u32,
    pub hour: u32,
    pub minute: u32,
    pub second: u32,
    /// Nanoseconds; from one second up it marks a leap second.
    pub nanosecond: u32,
    /// Seconds east of UTC.
    pub offset_seconds: i32,
}

impl LocalTime {
    /// Every field within its calendar range.
    pub open spec fn wf(&self) -> bool {
        &&& 1 <= self.month <= 12
        &&& 1 <= self.day <= 31
        &&& self.hour < 24
        &&& self.minute < 60
        &&& self.second < 60
        &&& self.nanosecond < 2_000_000_000
        &&& -86_400 < self.offset_seconds < 86_400
    }

    /// The second as shown: a leap second shows as the 60th.
    pub open spec fn shown_second(&self) -> int {
        if self.nanosecond >= 1_000_000_000 {
            self.second + 1
        } else {
            self.second as int
        }
    }
}

/// Relies on chrono's `DateTime::from_timestamp`, `with_timezone(&Local)`,
/// `Datelike`, `Timelike` and `FixedOffset::local_minus_utc`: the local date
/// and time of the instant `secs` seconds and `nanos` nanoseconds after the
/// epoch, each field within the range chrono documents; none where chrono
/// cannot represent the instant.
#[verifier::external_body]
fn local_time_at(secs: i64, nanos: u32) -> (r: Option<LocalTime>)
    ensures
        r matches Some(t) ==> t.wf(),
{
    let now = chrono::DateTime::from_timestamp(secs, nanos)?.with_timezone(&chrono::Local);
    Some(LocalTime {
        year: now.year(),
        month: now.month(),
        day: now.day(),
        hour: now.hour(),
        minute: now.minute(),
        second: now.second(),
        nanosecond: now.nanosecond(),
        offset_seconds: now.offset().local_minus_utc(),
    })
}

/// Relies on `SystemTime::now`, `duration_since` and `Duration`: the whole
/// seconds and the nanoseconds below one second since the Unix epoch; none
/// when the clock reads before the epoch.
#[verifier::external_body]
fn unix_now() -> (r: Option<(u64, u32)>)
    ensures
        r matches Some(t) ==> t.1 < 1_000_000_000,
{
    match std::time::SystemTime::now().duration_since(std::time::UNIX_EPOCH) {
        Ok(d) => Some((d.as_secs(), d.subsec_nanos())),
        Err(_) => None,
    }
}

/// The current local date and time; none when the clock reads before the
/// epoch or beyond what a date can hold.
pub fn current_time() -> (r: Option<LocalTime>)
    ensures
        r matches Some(t) ==> t.wf(),
{
    match unix_now() {
        Some((secs, nanos)) => {
            if secs > i64::MAX as u64 {
                None
            } else {
                local_time_at(secs as i64, nanos)
            }
        },
        None => None,
    }
}

/// The digit of value `d`, in base 16 and below.
pub open spec fn digit(d: int) -> char {
    seq!['0', '1', '2', '3', '4', '5', '6', '7', '8', '9', 'a', 'b', 'c', 'd', 'e', 'f'][d]
}

/// `n` written in base `b`, without leading zeros.
pub open spec fn in_base(n: nat, b: nat) -> Seq<char>
    decreases n
    via in_base_decreases
{
    if b < 2 || n < b {
        seq![digit(n as int)]
    } else {
        in_base(n / b, b).push(digit((n % b) as int))
    }
}

#[via_fn]
proof fn in_base_decreases(n: nat, b: nat) {
    if !(b < 2 || n < b) {
        assert(n / b < n) by (nonlinear_arith)
            requires
                b >= 2,
                n >= b,
        ;
    }
}

/// `n` as two decimal digits.
pub open spec fn two_digits(n: int) -> Seq<char> {
    seq![digit(n / 10), digit(n % 10)]
}

/// `s` with zeros in front, to at least `w` characters.
pub open spec fn zero_padded(s: Seq<char>, w: nat) -> Seq<char> {
    if s.len() >= w {
        s
    } else {
        Seq::new((w - s.len()) as nat, |i: int| '0') + s
    }
}

/// A year as four digits, or, out of `0..=9999`, a sign and at least four digits.
pub open spec fn year_text(y: int) -> Seq<char> {
    if 0 <= y <= 9999 {
        zero_padded(in_base(y as nat, 10), 4)
    } else if y > 9999 {
        seq!['+'] + in_base(y as nat, 10)
    } else {
        seq!['-'] + zero_padded(in_base((-y) as nat, 10), 4)
    }
}

/// The name of an archive made at `t`: `backup_YYYY-MM-DD_HH-MM-SS.zip`.
pub open spec fn archive_name_text(t: LocalTime) -> Seq<char> {
    "backup_"@ + year_text(t.year as int) + seq!['-'] + two_digits(t.month as int) + seq!['-']
        + two_digits(t.day as int) + seq!['_'] + two_digits(t.hour as int) + seq!['-']
        + two_digits(t.minute as int) + seq!['-'] + two_digits(t.shown_second()) + ".zip"@
}

/// The offset from UTC as `+HH:MM` or `-HH:MM`.
pub open spec fn offset_text(s: int) -> Seq<char> {
    let a = if s < 0 {
        -s
    } else {
        s
    };
    seq![if s < 0 { '-' } else { '+' }] + two_digits(a / 3600) + seq![':'] + two_digits((a / 60) % 60)
}

/// The creation time of an archive made at `t`, in RFC 3339 to the second:
/// `YYYY-MM-DDTHH:MM:SS+HH:MM`.
pub open spec fn created_at_text(t: LocalTime) -> Seq<char> {
    year_text(t.year as int) + seq!['-'] + two_digits(t.month as int) + seq!['-'] + two_digits(
        t.day as int,
    ) + seq!['T'] + two_digits(t.hour as int) + seq![':'] + two_digits(t.minute as int) + seq![':']
        + two_digits(t.shown_second()) + offset_text(t.offset_seconds as int)
}

/// A record id made from a time since the epoch: the seconds, then the
/// nanoseconds padded to eight digits, each in lower-case hexadecimal.
pub open spec fn id_text(secs: u64, nanos: u32) -> Seq<char> {
    in_base(secs as nat, 16) + zero_padded(in_base(nanos as nat, 16), 8)
}

fn digit_char(d: u64) -> (c: char)
    requires
        d < 16,
    ensures
        c == digit(d as int),
{
    let ghost t = seq!['0', '1', '2', '3', '4', '5', '6', '7', '8', '9', 'a', 'b', 'c', 'd', 'e', 'f'];
    assert(digit(d as int) == t[d as int]);
    if d == 0 { '0' } else if d == 1 { '1' } else if d == 2 { '2' } else if d == 3 { '3' }
    else if d == 4 { '4' } else if d == 5 { '5' } else if d == 6 { '6' } else if d == 7 { '7' }
    else if d == 8 { '8' } else if d == 9 { '9' } else if d == 10 { 'a' } else if d == 11 { 'b' }
    else if d == 12 { 'c' } else if d == 13 { 'd' } else if d == 14 { 'e' } else { 'f' }
}

/// Append `n` in base `b`.
fn push_in_base(out: &mut Vec<char>, n: u64, b: u64)
    requires
        b == 10 || b == 16,
    ensures
        final(out)@ == old(out)@ + in_base(n as nat, b as nat),
    decreases n,
{
    if n < b {
        out.push(digit_char(n));
    } else {
        push_in_base(out, n / b, b);
        out.push(digit_char(n % b));
    }
}

/// Append `s` zero-padded to at least `w` characters.
fn push_padded(out: &mut Vec<char>, s: &Vec<char>, w: usize)
    ensures
        final(out)@ == old(out)@ + zero_padded(s@, w as nat),
{
    let ghost start = out@;
    if s.len() < w {
        let mut k: usize = s.len();
        while k < w
            invariant
                s.len() <= k <= w,
                out@ == start + Seq::new((k - s.len()) as nat, |i: int| '0'),
            decreases w - k,
        {
            out.push('0');
            k = k + 1;
            assert(out@ =~= start + Seq::new((k - s.len()) as nat, |i: int| '0'));
        }
    }
    let ghost mid = out@;
    let mut i: usize = 0;
    while i < s.len()
        invariant
            i <= s.len(),
            out@ == mid + s@.take(i as int),
        decreases s.len() - i,
    {
        out.push(s[i]);
        i = i + 1;
        assert(out@ =~= mid + s@.take(i as int));
    }
    assert(s@.take(s.len() as int) =~= s@);
    assert(out@ =~= old(out)@ + zero_padded(s@, w as nat));
}

/// Append `n`, below 100, as two digits.
fn push_two(out: &mut Vec<char>, n: u32)
    requires
        n < 100,
    ensures
        final(out)@ == old(out)@ + two_digits(n as int),
{
    out.push(digit_char((n / 10) as u64));
    out.push(digit_char((n % 10) as u64));
    assert(final(out)@ =~= old(out)@ + two_digits(n as int));
}

/// Append the characters of `s`.
fn push_text(out: &mut Vec<char>, s: &str)
    ensures
        final(out)@ == old(out)@ + s@,
{
    let cs = chars_of(s);
    let ghost start = out@;
    let mut i: usize = 0;
    while i < cs.len()
        invariant
            i <= cs.len(),
            cs@ == s@,
            out@ == start + cs@.take(i as int),
        decreases cs.len() - i,
    {
        out.push(cs[i]);
        i = i + 1;
        assert(out@ =~= start + cs@.take(i as int));
    }
    assert(cs@.take(cs.len() as int) =~= cs@);
}

/// Append the year `y` as `year_text` writes it.
fn push_year(out: &mut Vec<char>, y: i32)
    ensures
        final(out)@ == old(out)@ + year_text(y as int),
{
    let mut digits: Vec<char> = Vec::new();
    if 0 <= y && y <= 9999 {
        push_in_base(&mut digits, y as u64, 10);
        assert(digits@ =~= in_base(y as nat, 10));
        push_padded(out, &digits, 4);
    } else if y > 9999 {
        out.push('+');
        push_in_base(&mut digits, y as u64, 10);
        push_padded(out, &digits, 0);
        assert(zero_padded(digits@, 0) == digits@);
        assert(final(out)@ =~= old(out)@ + year_text(y as int));
    } else {
        out.push('-');
        let a: u64 = (0 - (y as i64)) as u64;
        push_in_base(&mut digits, a, 10);
        assert(digits@ =~= in_base((-y) as nat, 10));
        push_padded(out, &digits, 4);
        assert(final(out)@ =~= old(out)@ + year_text(y as int));
    }
}

/// The second of `t` as shown.
fn shown_second(t: &LocalTime) -> (r: u32)
    requires
        t.wf(),
    ensures
        r as int == t.shown_second(),
{
    if t.nanosecond >= 1_000_000_000 {
        t.second + 1
    } else {
        t.second
    }
}

/// The file name of an archive made at `now`.
pub fn archive_file_name(now: &LocalTime) -> (r: String)
    requires
        now.wf(),
    ensures
        r@ == archive_name_text(*now),
{
    let mut out: Vec<char> = Vec::new();
    push_text(&mut out, "backup_");
    push_year(&mut out, now.year);
    out.push('-');
    push_two(&mut out, now.month);
    out.push('-');
    push_two(&mut out, now.day);
    out.push('_');
    push_two(&mut out, now.hour);
    out.push('-');
    push_two(&mut out, now.minute);
    out.push('-');
    push_two(&mut out, shown_second(now));
    push_text(&mut out, ".zip");
    assert(out@ =~= archive_name_text(*now));
    string_from_chars(&out)
}

/// The creation time of an archive made at `now`.
pub fn created_at_string(now: &LocalTime) -> (r: String)
    requires
        now.wf(),
    ensures
        r@ == created_at_text(*now),
{
    let mut out: Vec<char> = Vec::new();
    push_year(&mut out, now.year);
    out.push('-');
    push_two(&mut out, now.month);
    out.push('-');
    push_two(&mut out, now.day);
    out.push('T');
    push_two(&mut out, now.hour);
    out.push(':');
    push_two(&mut out, now.minute);
    out.push(':');
    push_two(&mut out, shown_second(now));
    let a: u32 = if now.offset_seconds < 0 {
        (0 - now.offset_seconds) as u32
    } else {
        now.offset_seconds as u32
    };
    out.push(if now.offset_seconds < 0 { '-' } else { '+' });
    push_two(&mut out, a / 3600);
    out.push(':');
    push_two(&mut out, (a / 60) % 60);
    assert(out@ =~= created_at_text(*now));
    string_from_chars(&out)
}

/// `n` in decimal.
pub fn decimal_string(n: u64) -> (r: String)
    ensures
        r@ == in_base(n as nat, 10),
{
    let mut out: Vec<char> = Vec::new();
    push_in_base(&mut out, n, 10);
    assert(out@ =~= in_base(n as nat, 10));
    string_from_chars(&out)
}

/// The record id for the time `secs` seconds and `nanos` nanoseconds after the epoch.
pub fn backup_id(secs: u64, nanos: u32) -> (r: String)
    ensures
        r@ == id_text(secs, nanos),
{
    let mut out: Vec<char> = Vec::new();
    push_in_base(&mut out, secs, 16);
    let mut n: Vec<char> = Vec::new();
    push_in_base(&mut n, nanos as u64, 16);
    assert(n@ =~= in_base(nanos as nat, 16));
    push_padded(&mut out, &n, 8);
    assert(out@ =~= id_text(secs, nanos));
    string_from_chars(&out)
}

/// A record id from the system clock, as `backup_id` makes it; none when the
/// clock reads before the epoch.
pub fn uuid_simple() -> (r: Option<String>)
    ensures
        r matches Some(id) ==> exists|secs: u64, nanos: u32|
            nanos < 1_000_000_000 && id@ == id_text(secs, nanos),
{
    match unix_now() {
        Some((secs, nanos)) => Some(backup_id(secs, nanos)),
        None => None,
    }
}

} // verus!
